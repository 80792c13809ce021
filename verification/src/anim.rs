//! Playback of tagged frame ranges: which frame is shown after how much time.

use vstd::prelude::*;

use crate::computed::AsepriteInfo;
use crate::model::{AsepriteInfoView, AsepriteTagView};
use crate::raw::AsepriteAnimationDirection;

verus! {

/// Nanoseconds in a millisecond.
pub const NANOS_PER_MILLI: u128 = 1_000_000;

impl AsepriteTagView {
    /// Whether a frame lies in the tag's range.
    pub open spec fn contains(self, frame: int) -> bool {
        self.start <= frame < self.end
    }

    /// The number of frames in the tag's range.
    pub open spec fn len(self) -> nat {
        if self.start <= self.end {
            (self.end - self.start) as nat
        } else {
            0
        }
    }
}

/// The state of a playback
#[derive(Debug, PartialEq, Eq)]
pub struct AsepriteAnimation {
    /// Whether time moves the animation on
    pub is_playing: bool,
    tag: Option<String>,
    /// The frame that is shown
    pub current_frame: usize,
    forward: bool,
    time_elapsed: u128,
    tag_changed: bool,
}

/// What an [`AsepriteAnimation`] holds.
pub struct AsepriteAnimationView {
    /// Whether time moves the animation on
    pub is_playing: bool,
    /// The name of the tag that is played; without one, all frames are
    pub tag: Option<Seq<char>>,
    /// The frame that is shown
    pub current_frame: usize,
    /// Whether a ping-pong tag is being played forward
    pub forward: bool,
    /// The nanoseconds for which the current frame has been shown
    pub time_elapsed: u128,
    /// Whether the tag has been set since the last update
    pub tag_changed: bool,
}

impl View for AsepriteAnimation {
    type V = AsepriteAnimationView;

    closed spec fn view(&self) -> AsepriteAnimationView {
        AsepriteAnimationView {
            is_playing: self.is_playing,
            tag: crate::raw::text_view(self.tag),
            current_frame: self.current_frame,
            forward: self.forward,
            time_elapsed: self.time_elapsed,
            tag_changed: self.tag_changed,
        }
    }
}

impl AsepriteInfoView {
    /// Whether every frame from `first` up to `end` has a delay and none of
    /// these delays is zero.
    pub open spec fn frames_take_time(self, first: nat, end: nat) -> bool {
        &&& first < end ==> end <= self.frame_delays.len()
        &&& forall|frame: int| first <= frame < end ==> (#[trigger] self.frame_delays[frame]) > 0
    }
}

impl AsepriteAnimationView {
    /// The state in which every playback starts.
    pub open spec fn initial(tag: Option<Seq<char>>) -> AsepriteAnimationView {
        AsepriteAnimationView {
            is_playing: true,
            tag,
            current_frame: 0,
            forward: false,
            time_elapsed: 0,
            tag_changed: true,
        }
    }

    /// The tag that is played, if one is named and the document has it.
    pub open spec fn active_tag(self, info: AsepriteInfoView) -> Option<AsepriteTagView> {
        match self.tag {
            Some(name) => if info.tags.contains_key(name) {
                Some(info.tags[name])
            } else {
                None
            },
            None => None,
        }
    }

    /// Whether playback may come to show a frame: a frame of the tag that is
    /// played; without a tag, a frame of the document; and with a tag that
    /// the document does not have, the frame that is shown.
    pub open spec fn plays(self, info: AsepriteInfoView, frame: int) -> bool {
        match self.tag {
            Some(_) => match self.active_tag(info) {
                Some(tag) => tag.contains(frame),
                None => frame == self.current_frame,
            },
            None => 0 <= frame < info.frame_count,
        }
    }

    /// What playing asks of a state and a document: the frame that is shown
    /// is one that playback may show; every frame that it may show has a
    /// delay, and no such delay is zero; and a ping-pong tag that is played
    /// has two frames or more.
    pub open spec fn can_play(self, info: AsepriteInfoView) -> bool {
        &&& self.plays(info, self.current_frame as int)
        &&& forall|frame: int| #[trigger]
            self.plays(info, frame) ==> 0 <= frame < info.frame_delays.len()
                && info.frame_delays[frame] > 0
        &&& self.active_tag(info) matches Some(tag) ==> (tag.animation_direction is PingPong
            ==> tag.end - tag.start >= 2)
    }

    /// What taking up the tag asks: a tag that is played in reverse has a
    /// last frame.
    pub open spec fn can_reset(self, info: AsepriteInfoView) -> bool {
        self.active_tag(info) matches Some(tag) ==> (tag.animation_direction is Reverse ==> tag.end
            >= 1)
    }

    /// What going one frame on asks: that there is a number for the next
    /// frame. Without a tag, the document has a frame; a tag that is played
    /// in reverse has a last frame; going up, the frame is not the greatest
    /// number; and a ping-pong tag that turns backward does not turn on
    /// frame 0.
    pub open spec fn can_step(self, info: AsepriteInfoView) -> bool {
        match self.tag {
            Some(_) => match self.active_tag(info) {
                Some(tag) => match tag.animation_direction {
                    AsepriteAnimationDirection::Forward => self.current_frame < usize::MAX,
                    AsepriteAnimationDirection::Reverse => tag.end >= 1,
                    AsepriteAnimationDirection::PingPong => self.current_frame < usize::MAX && (
                    self.forward && !tag.contains(self.current_frame + 1) ==> self.current_frame
                        >= 1),
                },
                None => true,
            },
            None => info.frame_count > 0 && self.current_frame < usize::MAX,
        }
    }

    /// The state after the tag has been taken up.
    ///
    /// No time has gone by on the frame that is shown. Without a tag,
    /// playback starts at frame 0. A forward and a ping-pong tag start at
    /// their first frame, a reverse tag at its last. A tag that the document
    /// does not have leaves the frame as it is.
    pub open spec fn reset(self, info: AsepriteInfoView) -> AsepriteAnimationView {
        let taken = AsepriteAnimationView { tag_changed: false, time_elapsed: 0, ..self };
        match self.tag {
            Some(name) => match self.active_tag(info) {
                Some(tag) => match tag.animation_direction {
                    AsepriteAnimationDirection::Reverse => AsepriteAnimationView {
                        current_frame: (tag.end - 1) as usize,
                        forward: false,
                        ..taken
                    },
                    _ => AsepriteAnimationView {
                        current_frame: tag.start as usize,
                        forward: true,
                        ..taken
                    },
                },
                None => taken,
            },
            None => AsepriteAnimationView { current_frame: 0, forward: true, ..taken },
        }
    }

    /// The state one frame on.
    ///
    /// Without a tag, the frames of the document follow each other and the
    /// first follows the last. A forward tag goes one frame up and from its
    /// last frame to its first; a reverse tag goes one frame down and from
    /// its first frame to its last. A ping-pong tag that is played forward
    /// goes one frame up; where that would leave its range, it goes one
    /// frame down and turns backward. Played backward, it goes one frame
    /// down; where that would leave its range, it goes one frame up and
    /// turns forward. A tag that the document does not have leaves the state
    /// as it is.
    pub open spec fn next_frame(self, info: AsepriteInfoView) -> AsepriteAnimationView {
        match self.tag {
            Some(name) => match self.active_tag(info) {
                Some(tag) => match tag.animation_direction {
                    AsepriteAnimationDirection::Forward => AsepriteAnimationView {
                        current_frame: if tag.contains(self.current_frame + 1) {
                            (self.current_frame + 1) as usize
                        } else {
                            tag.start as usize
                        },
                        ..self
                    },
                    AsepriteAnimationDirection::Reverse => AsepriteAnimationView {
                        current_frame: if self.current_frame > 0 && tag.contains(
                            self.current_frame - 1,
                        ) {
                            (self.current_frame - 1) as usize
                        } else {
                            (tag.end - 1) as usize
                        },
                        ..self
                    },
                    AsepriteAnimationDirection::PingPong => if self.forward {
                        if tag.contains(self.current_frame + 1) {
                            AsepriteAnimationView {
                                current_frame: (self.current_frame + 1) as usize,
                                ..self
                            }
                        } else {
                            AsepriteAnimationView {
                                current_frame: (self.current_frame - 1) as usize,
                                forward: false,
                                ..self
                            }
                        }
                    } else {
                        if self.current_frame > 0 && tag.contains(self.current_frame - 1) {
                            AsepriteAnimationView {
                                current_frame: (self.current_frame - 1) as usize,
                                ..self
                            }
                        } else {
                            AsepriteAnimationView {
                                current_frame: (self.current_frame + 1) as usize,
                                forward: true,
                                ..self
                            }
                        }
                    },
                },
                None => self,
            },
            None => AsepriteAnimationView {
                current_frame: ((self.current_frame + 1) % (info.frame_count as int)) as usize,
                ..self
            },
        }
    }

    /// The state `count` frames on.
    pub open spec fn steps(self, info: AsepriteInfoView, count: nat) -> AsepriteAnimationView
        decreases count,
    {
        if count == 0 {
            self
        } else {
            self.steps(info, (count - 1) as nat).next_frame(info)
        }
    }

    /// The nanoseconds for which the current frame is shown.
    pub open spec fn frame_nanos(self, info: AsepriteInfoView) -> int {
        info.frame_delays[self.current_frame as int] * NANOS_PER_MILLI
    }

    /// The state after the time that has gone by has been used up: as long
    /// as the current frame has been shown for its whole duration, that
    /// duration is taken off and playback goes one frame on. The second part
    /// says whether the frame was changed.
    pub open spec fn advance(self, info: AsepriteInfoView) -> (AsepriteAnimationView, bool)
        decreases self.time_elapsed,
    {
        let duration = self.frame_nanos(info);
        if duration > 0 && self.time_elapsed >= duration {
            let stepped = (AsepriteAnimationView {
                time_elapsed: (self.time_elapsed - duration) as u128,
                ..self
            }).next_frame(info);
            (stepped.advance(info).0, true)
        } else {
            (self, false)
        }
    }

    /// The state after `dt` more nanoseconds, and whether the frame was
    /// changed.
    ///
    /// Where the tag has been set since the last update, the tag is taken up
    /// and no time goes by. A paused playback stays as it is. Otherwise the
    /// time is added and used up.
    pub open spec fn update(self, info: AsepriteInfoView, dt: u128) -> (
        AsepriteAnimationView,
        bool,
    ) {
        if self.tag_changed {
            (self.reset(info), true)
        } else if !self.is_playing {
            (self, false)
        } else {
            (AsepriteAnimationView { time_elapsed: (self.time_elapsed + dt) as u128, ..self })
                .advance(info)
        }
    }

    /// What an update asks of a state, a document and a time span. Where
    /// the tag has been set since the last update, the tag can be taken up.
    /// A paused playback asks nothing. A playback that is playing can play
    /// on the document, and the time that has gone by can be counted.
    pub open spec fn can_update(self, info: AsepriteInfoView, dt: u128) -> bool {
        if self.tag_changed {
            self.can_reset(info)
        } else if !self.is_playing {
            true
        } else {
            self.can_play(info) && self.time_elapsed + dt <= u128::MAX
        }
    }
}

/// Going one frame on from a state that can play can be done and leads to a
/// state that can play; it changes neither the tag nor the time.
pub proof fn lemma_next_frame_can_play(state: AsepriteAnimationView, info: AsepriteInfoView)
    requires
        state.can_play(info),
    ensures
        state.can_step(info),
        state.next_frame(info).can_play(info),
        state.next_frame(info).tag == state.tag,
        state.next_frame(info).time_elapsed == state.time_elapsed,
        state.next_frame(info).is_playing == state.is_playing,
        state.next_frame(info).tag_changed == state.tag_changed,
{
    let next = state.next_frame(info);
    assert(state.plays(info, state.current_frame as int));
    match state.active_tag(info) {
        Some(tag) => {
            assert(next.active_tag(info) == Some(tag));
            assert(tag.contains(next.current_frame as int));
            assert forall|frame: int| #[trigger] next.plays(info, frame) implies 0 <= frame
                < info.frame_delays.len() && info.frame_delays[frame] > 0 by {
                assert(state.plays(info, frame));
            }
        },
        None => {
            if state.tag is None {
                let wrapped = (state.current_frame + 1) % (info.frame_count as int);
                assert(0 <= wrapped < info.frame_count);
                assert forall|frame: int| #[trigger] next.plays(info, frame) implies 0 <= frame
                    < info.frame_delays.len() && info.frame_delays[frame] > 0 by {
                    assert(state.plays(info, frame));
                }
            }
        },
    }
}

/// On a document all of whose frames take time, taking up the tag leads to
/// a state that can play, on which no time has gone by: where the tag lies
/// within the frames of the document and, if it is a ping-pong tag, has two
/// frames or more; without a tag, where the document has a frame; and with
/// a tag that the document does not have, where the frame that is shown is
/// one of the document.
pub proof fn lemma_reset_can_play(state: AsepriteAnimationView, info: AsepriteInfoView)
    requires
        info.frame_delays.len() == info.frame_count,
        forall|frame: int|
            0 <= frame < info.frame_count ==> (#[trigger] info.frame_delays[frame]) > 0,
        state.active_tag(info) matches Some(tag) ==> tag.within(info.frame_count) && (
        tag.animation_direction is PingPong ==> tag.end - tag.start >= 2),
        state.tag is None ==> info.frame_count > 0,
        state.tag is Some && state.active_tag(info) is None ==> state.current_frame
            < info.frame_count,
    ensures
        state.can_reset(info),
        state.reset(info).can_play(info),
        state.reset(info).time_elapsed == 0,
        !state.reset(info).tag_changed,
{
    let taken = state.reset(info);
    assert(taken.active_tag(info) == state.active_tag(info));
    assert(taken.plays(info, taken.current_frame as int));
    assert forall|frame: int| #[trigger] taken.plays(info, frame) implies 0 <= frame
        < info.frame_delays.len() && info.frame_delays[frame] > 0 by {
        assert(0 <= frame < info.frame_count);
        assert(info.frame_delays[frame] > 0);
    }
}

impl AsepriteAnimation {
    /// A playback of a tag, or of all frames.
    pub fn new(tag: Option<String>) -> (animation: AsepriteAnimation)
        ensures
            animation@ == AsepriteAnimationView::initial(crate::raw::text_view(tag)),
    {
        AsepriteAnimation {
            is_playing: true,
            tag,
            current_frame: 0,
            forward: false,
            time_elapsed: 0,
            tag_changed: true,
        }
    }

    fn active_tag<'a>(&self, info: &'a AsepriteInfo) -> (found: Option<
        &'a crate::computed::AsepriteTag,
    >)
        ensures
            match found {
                Some(tag) => self@.active_tag(info@) == Some(tag@),
                None => self@.active_tag(info@) is None,
            },
    {
        match &self.tag {
            Some(name) => info.tags.get(name.as_str()),
            None => None,
        }
    }

    /// Takes up the tag: playback starts again where the tag starts, and no
    /// time has gone by.
    pub fn reset(&mut self, info: &AsepriteInfo)
        requires
            old(self)@.can_reset(info@),
        ensures
            final(self)@ == old(self)@.reset(info@),
    {
        self.tag_changed = false;
        self.time_elapsed = 0;
        if self.tag.is_some() {
            match self.active_tag(info) {
                Some(tag) => {
                    match tag.animation_direction {
                        AsepriteAnimationDirection::Reverse => {
                            self.current_frame = tag.frames.end as usize - 1;
                            self.forward = false;
                        },
                        _ => {
                            self.current_frame = tag.frames.start as usize;
                            self.forward = true;
                        },
                    }
                },
                None => {},
            }
        } else {
            self.current_frame = 0;
            self.forward = true;
        }
    }

    /// Goes one frame on.
    pub fn next_frame(&mut self, info: &AsepriteInfo)
        requires
            old(self)@.can_step(info@),
        ensures
            final(self)@ == old(self)@.next_frame(info@),
            old(self)@.can_play(info@) ==> final(self)@.can_play(info@),
    {
        proof {
            if self@.can_play(info@) {
                lemma_next_frame_can_play(self@, info@);
            }
        }
        if self.tag.is_some() {
            match self.active_tag(info) {
                Some(tag) => {
                    let start = tag.frames.start as usize;
                    let end = tag.frames.end as usize;
                    match tag.animation_direction {
                        AsepriteAnimationDirection::Forward => {
                            let next_frame = self.current_frame + 1;
                            if start <= next_frame && next_frame < end {
                                self.current_frame = next_frame;
                            } else {
                                self.current_frame = start;
                            }
                        },
                        AsepriteAnimationDirection::Reverse => {
                            if self.current_frame > 0 && start <= self.current_frame - 1
                                && self.current_frame - 1 < end {
                                self.current_frame = self.current_frame - 1;
                            } else {
                                self.current_frame = end - 1;
                            }
                        },
                        AsepriteAnimationDirection::PingPong => {
                            if self.forward {
                                let next_frame = self.current_frame + 1;
                                if start <= next_frame && next_frame < end {
                                    self.current_frame = next_frame;
                                } else {
                                    self.current_frame = self.current_frame - 1;
                                    self.forward = false;
                                }
                            } else {
                                if self.current_frame > 0 && start <= self.current_frame - 1
                                    && self.current_frame - 1 < end {
                                    self.current_frame = self.current_frame - 1;
                                } else {
                                    self.current_frame = self.current_frame + 1;
                                    self.forward = true;
                                }
                            }
                        },
                    }
                },
                None => {},
            }
        } else {
            self.current_frame = (self.current_frame + 1) % info.frame_count;
        }
    }

    /// The nanoseconds for which the current frame is shown.
    pub fn current_frame_duration(&self, info: &AsepriteInfo) -> (nanos: u128)
        requires
            self@.current_frame < info@.frame_delays.len(),
        ensures
            nanos == self@.frame_nanos(info@),
    {
        let delay = info.frame_infos[self.current_frame].delay_ms;
        assert(delay == info@.frame_delays[self@.current_frame as int]);
        (delay as u128) * NANOS_PER_MILLI
    }

    /// Moves the playback on by `dt` nanoseconds. Returns whether the frame
    /// was changed.
    pub fn update(&mut self, info: &AsepriteInfo, dt: u128) -> (changed: bool)
        requires
            old(self)@.can_update(info@, dt),
        ensures
            final(self)@ == old(self)@.update(info@, dt).0,
            changed == old(self)@.update(info@, dt).1,
            !old(self)@.tag_changed && !old(self)@.is_playing ==> !changed,
            !old(self)@.tag_changed && !old(self)@.is_playing ==> final(self)@ == old(self)@,
            !old(self)@.tag_changed && old(self)@.is_playing ==> final(self)@.can_play(info@),
    {
        if self.tag_changed {
            self.reset(info);
            return true;
        }
        if self.is_paused() {
            return false;
        }
        self.time_elapsed += dt;
        let ghost begun = self@;
        proof {
            assert(old(self)@.plays(info@, self@.current_frame as int));
            assert forall|frame: int| #[trigger] self@.plays(info@, frame) implies 0 <= frame
                < info@.frame_delays.len() && info@.frame_delays[frame] > 0 by {
                assert(old(self)@.plays(info@, frame));
            }
        }
        let mut current_frame_duration = self.current_frame_duration(info);
        let mut frame_changed = false;
        while self.time_elapsed >= current_frame_duration
            invariant
                self@.can_play(info@),
                current_frame_duration == self@.frame_nanos(info@),
                begun.advance(info@).0 == self@.advance(info@).0,
                begun.advance(info@).1 == (frame_changed || self@.advance(info@).1),
            decreases self.time_elapsed,
        {
            assert(self@.plays(info@, self@.current_frame as int));
            assert(info@.frame_delays[self@.current_frame as int] > 0);
            let ghost shown = self@;
            self.time_elapsed -= current_frame_duration;
            proof {
                assert forall|frame: int| #[trigger] self@.plays(info@, frame) implies 0 <= frame
                    < info@.frame_delays.len() && info@.frame_delays[frame] > 0 by {
                    assert(shown.plays(info@, frame));
                }
                lemma_next_frame_can_play(self@, info@);
            }
            self.next_frame(info);
            assert(self@.plays(info@, self@.current_frame as int));
            current_frame_duration = self.current_frame_duration(info);
            frame_changed = true;
        }
        frame_changed
    }

    /// Whether every frame from `first` up to `end` has a delay and none of
    /// these delays is zero.
    fn frames_take_time(info: &AsepriteInfo, first: usize, end: usize) -> (ok: bool)
        ensures
            ok == info@.frames_take_time(first as nat, end as nat),
    {
        if first >= end {
            return true;
        }
        if end > info.frame_infos.len() {
            return false;
        }
        let mut frame = first;
        while frame < end
            invariant
                first <= frame <= end,
                end <= info.frame_infos.len(),
                forall|k: int| first <= k < frame ==> (#[trigger] info@.frame_delays[k]) > 0,
            decreases end - frame,
        {
            if info.frame_infos[frame].delay_ms == 0 {
                assert(info@.frame_delays[frame as int] == 0);
                return false;
            }
            frame += 1;
        }
        true
    }

    /// Whether the playback can play on a document.
    pub fn can_play(&self, info: &AsepriteInfo) -> (ok: bool)
        ensures
            ok == self@.can_play(info@),
    {
        if self.tag.is_some() {
            match self.active_tag(info) {
                Some(tag) => {
                    let start = tag.frames.start as usize;
                    let end = tag.frames.end as usize;
                    let long_enough = match tag.animation_direction {
                        AsepriteAnimationDirection::PingPong => end >= start + 2,
                        _ => true,
                    };
                    let shown = start <= self.current_frame && self.current_frame < end;
                    let timed = Self::frames_take_time(info, start, end);
                    proof {
                        if timed {
                            assert forall|frame: int| #[trigger]
                                self@.plays(info@, frame) implies 0 <= frame
                                < info@.frame_delays.len() && info@.frame_delays[frame] > 0 by {
                                assert(info@.frame_delays[frame] > 0);
                            }
                        } else if self@.can_play(info@) {
                            if start < end {
                                assert(self@.plays(info@, end - 1));
                            }
                            assert forall|frame: int| start <= frame < end implies (
                            #[trigger] info@.frame_delays[frame]) > 0 by {
                                assert(self@.plays(info@, frame));
                            }
                        }
                    }
                    shown && timed && long_enough
                },
                None => {
                    let shown = self.current_frame < info.frame_infos.len()
                        && info.frame_infos[self.current_frame].delay_ms > 0;
                    proof {
                        assert(self@.plays(info@, self@.current_frame as int));
                        if shown {
                            assert(info@.frame_delays[self@.current_frame as int] > 0);
                        }
                    }
                    shown
                },
            }
        } else {
            let shown = self.current_frame < info.frame_count;
            let timed = Self::frames_take_time(info, 0, info.frame_count);
            proof {
                if timed {
                    assert forall|frame: int| #[trigger] self@.plays(info@, frame) implies 0
                        <= frame < info@.frame_delays.len() && info@.frame_delays[frame] > 0 by {
                        assert(info@.frame_delays[frame] > 0);
                    }
                } else if self@.can_play(info@) {
                    if info.frame_count > 0 {
                        assert(self@.plays(info@, info.frame_count - 1));
                    }
                    assert forall|frame: int| 0 <= frame < info.frame_count implies (
                    #[trigger] info@.frame_delays[frame]) > 0 by {
                        assert(self@.plays(info@, frame));
                    }
                }
            }
            shown && timed
        }
    }

    /// Whether the tag can be taken up on a document.
    pub fn can_reset(&self, info: &AsepriteInfo) -> (ok: bool)
        ensures
            ok == self@.can_reset(info@),
    {
        match self.active_tag(info) {
            Some(tag) => match tag.animation_direction {
                AsepriteAnimationDirection::Reverse => tag.frames.end >= 1,
                _ => true,
            },
            None => true,
        }
    }

    /// Moves the playback on by `dt` nanoseconds where an update can be
    /// made. Returns whether the frame was changed, or nothing where the
    /// playback was left as it is.
    pub fn checked_update(&mut self, info: &AsepriteInfo, dt: u128) -> (changed: Option<bool>)
        ensures
            match changed {
                Some(c) => old(self)@.can_update(info@, dt) && final(self)@ == old(self)@.update(
                    info@,
                    dt,
                ).0 && c == old(self)@.update(info@, dt).1,
                None => !old(self)@.can_update(info@, dt) && *final(self) == *old(self),
            },
    {
        if self.tag_changed {
            if !self.can_reset(info) {
                return None;
            }
        } else if self.is_playing {
            if !self.can_play(info) || dt > u128::MAX - self.time_elapsed {
                return None;
            }
        }
        Some(self.update(info, dt))
    }

    /// Get the current frame
    pub fn current_frame(&self) -> (frame: usize)
        ensures
            frame == self@.current_frame,
    {
        self.current_frame
    }

    /// Start or resume playing an animation
    pub fn play(&mut self)
        ensures
            final(self)@ == (AsepriteAnimationView { is_playing: true, ..old(self)@ }),
    {
        self.is_playing = true;
    }

    /// Pause the current animation
    pub fn pause(&mut self)
        ensures
            final(self)@ == (AsepriteAnimationView { is_playing: false, ..old(self)@ }),
    {
        self.is_playing = false;
    }

    /// Returns `true` if the animation is playing
    pub fn is_playing(&self) -> (playing: bool)
        ensures
            playing == self@.is_playing,
    {
        self.is_playing
    }

    /// Returns `true` if the animation is paused
    pub fn is_paused(&self) -> (paused: bool)
        ensures
            paused == !self@.is_playing,
    {
        !self.is_playing
    }

    /// Toggle state between playing and pausing
    pub fn toggle(&mut self)
        ensures
            final(self)@ == (AsepriteAnimationView {
                is_playing: !old(self)@.is_playing,
                ..old(self)@
            }),
    {
        self.is_playing = !self.is_playing;
    }
}

impl Default for AsepriteAnimation {
    fn default() -> (animation: AsepriteAnimation)
        ensures
            animation@ == AsepriteAnimationView::initial(None),
    {
        AsepriteAnimation::new(None)
    }
}

/// The playback of a tag in its first state.
pub closed spec fn playback_of(tag: String) -> AsepriteAnimation {
    AsepriteAnimation {
        is_playing: true,
        tag: Some(tag),
        current_frame: 0,
        forward: false,
        time_elapsed: 0,
        tag_changed: true,
    }
}

/// The playback of a tag starts in the initial state.
pub proof fn lemma_playback_of(tag: String)
    ensures
        playback_of(tag)@ == AsepriteAnimationView::initial(Some(tag@)),
{
}

impl From<String> for AsepriteAnimation {
    fn from(tag: String) -> (animation: AsepriteAnimation)
        ensures
            animation@ == AsepriteAnimationView::initial(Some(tag@)),
    {
        AsepriteAnimation {
            is_playing: true,
            tag: Some(tag),
            current_frame: 0,
            forward: false,
            time_elapsed: 0,
            tag_changed: true,
        }
    }
}

impl vstd::std_specs::convert::FromSpecImpl<String> for AsepriteAnimation {
    open spec fn obeys_from_spec() -> bool {
        true
    }

    open spec fn from_spec(tag: String) -> AsepriteAnimation {
        playback_of(tag)
    }
}

impl From<&str> for AsepriteAnimation {
    fn from(tag: &str) -> (animation: AsepriteAnimation)
        ensures
            animation@ == AsepriteAnimationView::initial(Some(tag@)),
    {
        AsepriteAnimation::new(Some(tag.to_owned()))
    }
}

impl vstd::std_specs::convert::FromSpecImpl<&str> for AsepriteAnimation {
    open spec fn obeys_from_spec() -> bool {
        false
    }

    open spec fn from_spec(tag: &str) -> AsepriteAnimation {
        arbitrary()
    }
}

/// Going frames on changes neither the tag nor which tag is played.
proof fn lemma_steps_keep_tag(state: AsepriteAnimationView, info: AsepriteInfoView, count: nat)
    ensures
        state.steps(info, count).tag == state.tag,
        state.steps(info, count).active_tag(info) == state.active_tag(info),
    decreases count,
{
    if count > 0 {
        lemma_steps_keep_tag(state, info, (count - 1) as nat);
    }
}

/// Steps add up.
proof fn lemma_steps_from(
    state: AsepriteAnimationView,
    info: AsepriteInfoView,
    first: nat,
    then: nat,
)
    ensures
        state.steps(info, first + then) == state.steps(info, first).steps(info, then),
    decreases then,
{
    if then > 0 {
        lemma_steps_from(state, info, first, (then - 1) as nat);
    }
}

/// A forward tag is played up from its first frame.
proof fn lemma_forward_climbs(
    state: AsepriteAnimationView,
    info: AsepriteInfoView,
    tag: AsepriteTagView,
    count: nat,
)
    requires
        state.active_tag(info) == Some(tag),
        tag.animation_direction is Forward,
        state.current_frame == tag.start,
        count < tag.len(),
    ensures
        state.steps(info, count).current_frame == tag.start + count,
    decreases count,
{
    if count > 0 {
        lemma_forward_climbs(state, info, tag, (count - 1) as nat);
        lemma_steps_keep_tag(state, info, (count - 1) as nat);
    }
}

/// A forward tag is a cycle: from its first frame, as many steps as the tag
/// has frames lead through the frames of the tag and back to its first
/// frame.
pub proof fn lemma_forward_cycle(
    state: AsepriteAnimationView,
    info: AsepriteInfoView,
    tag: AsepriteTagView,
)
    requires
        state.active_tag(info) == Some(tag),
        tag.animation_direction is Forward,
        state.current_frame == tag.start,
    ensures
        state.steps(info, tag.len()).current_frame == tag.start,
        forall|count: nat|
            count < tag.len() ==> (#[trigger] state.steps(info, count)).current_frame == tag.start
                + count,
{
    if tag.len() > 0 {
        let last = (tag.len() - 1) as nat;
        lemma_forward_climbs(state, info, tag, last);
        lemma_steps_keep_tag(state, info, last);
    }
    assert forall|count: nat| count < tag.len() implies (#[trigger] state.steps(
        info,
        count,
    )).current_frame == tag.start + count by {
        lemma_forward_climbs(state, info, tag, count);
    }
}

/// A reverse tag is played down from its last frame.
proof fn lemma_reverse_descends(
    state: AsepriteAnimationView,
    info: AsepriteInfoView,
    tag: AsepriteTagView,
    count: nat,
)
    requires
        state.active_tag(info) == Some(tag),
        tag.animation_direction is Reverse,
        tag.start < tag.end,
        state.current_frame == tag.end - 1,
        count < tag.len(),
    ensures
        state.steps(info, count).current_frame == tag.end - 1 - count,
    decreases count,
{
    if count > 0 {
        lemma_reverse_descends(state, info, tag, (count - 1) as nat);
        lemma_steps_keep_tag(state, info, (count - 1) as nat);
    }
}

/// A reverse tag is a cycle in the opposite order: from its last frame, as
/// many steps as the tag has frames lead down through the frames of the tag
/// and back to its last frame.
pub proof fn lemma_reverse_cycle(
    state: AsepriteAnimationView,
    info: AsepriteInfoView,
    tag: AsepriteTagView,
)
    requires
        state.active_tag(info) == Some(tag),
        tag.animation_direction is Reverse,
        state.current_frame == tag.end - 1,
    ensures
        state.steps(info, tag.len()).current_frame == tag.end - 1,
        forall|count: nat|
            count < tag.len() ==> (#[trigger] state.steps(info, count)).current_frame == tag.end
                - 1 - count,
{
    if tag.len() > 0 {
        let last = (tag.len() - 1) as nat;
        lemma_reverse_descends(state, info, tag, last);
        lemma_steps_keep_tag(state, info, last);
    }
    assert forall|count: nat| count < tag.len() implies (#[trigger] state.steps(
        info,
        count,
    )).current_frame == tag.end - 1 - count by {
        lemma_reverse_descends(state, info, tag, count);
    }
}

/// A reverse tag is a cycle from its first frame too: one step leads to its
/// last frame, and as many steps as the tag has frames lead back to its
/// first.
pub proof fn lemma_reverse_cycle_from_start(
    state: AsepriteAnimationView,
    info: AsepriteInfoView,
    tag: AsepriteTagView,
)
    requires
        state.active_tag(info) == Some(tag),
        tag.animation_direction is Reverse,
        state.current_frame == tag.start,
    ensures
        tag.start < tag.end ==> state.steps(info, 1).current_frame == tag.end - 1,
        state.steps(info, tag.len()).current_frame == tag.start,
{
    if tag.len() > 0 {
        let first = state.next_frame(info);
        assert(state.steps(info, 0) == state);
        assert(state.steps(info, 1) == first);
        assert(first.current_frame == tag.end - 1);
        lemma_steps_from(state, info, 1, (tag.len() - 1) as nat);
        lemma_reverse_descends(first, info, tag, (tag.len() - 1) as nat);
    }
}

/// Half the round of a ping-pong tag: the number of steps from its first
/// frame to its last.
pub open spec fn ping_pong_half(tag: AsepriteTagView) -> int {
    tag.end - 1 - tag.start
}

/// The frame that a ping-pong tag shows at a place of its round: the round
/// goes up from the first frame to the last and down again to the frame
/// above the first.
pub open spec fn ping_pong_frame(tag: AsepriteTagView, place: int) -> int {
    if place <= ping_pong_half(tag) {
        tag.start + place
    } else {
        tag.start + 2 * ping_pong_half(tag) - place
    }
}

/// The place after a place on the round of a ping-pong tag.
pub open spec fn ping_pong_next(tag: AsepriteTagView, place: int) -> int {
    if place + 1 == 2 * ping_pong_half(tag) {
        0
    } else {
        place + 1
    }
}

/// The place `count` steps after a place on the round of a ping-pong tag.
pub open spec fn ping_pong_after(tag: AsepriteTagView, place: int, count: nat) -> int
    decreases count,
{
    if count == 0 {
        place
    } else {
        ping_pong_next(tag, ping_pong_after(tag, place, (count - 1) as nat))
    }
}

impl AsepriteAnimationView {
    /// Where a state stands on the round of a ping-pong tag.
    pub open spec fn ping_pong_place(self, tag: AsepriteTagView) -> int {
        if self.current_frame == tag.start {
            0
        } else if self.current_frame == tag.end - 1 {
            ping_pong_half(tag)
        } else if self.forward {
            self.current_frame - tag.start
        } else {
            2 * ping_pong_half(tag) - (self.current_frame - tag.start)
        }
    }

    /// The number of steps after which a ping-pong tag next shows a frame
    /// on its way up: at least one, at most a whole round.
    pub open spec fn ping_pong_wait(self, tag: AsepriteTagView, frame: int) -> nat {
        if frame - tag.start > self.ping_pong_place(tag) {
            (frame - tag.start - self.ping_pong_place(tag)) as nat
        } else {
            (frame - tag.start - self.ping_pong_place(tag) + 2 * ping_pong_half(tag)) as nat
        }
    }
}

/// The place after steps on the round of a ping-pong tag is the sum of the
/// place and the steps, less a whole round where the sum reaches one.
proof fn lemma_ping_pong_after(tag: AsepriteTagView, place: int, count: nat)
    requires
        ping_pong_half(tag) >= 1,
        0 <= place < 2 * ping_pong_half(tag),
        place + count < 4 * ping_pong_half(tag),
    ensures
        ping_pong_after(tag, place, count) == if place + count < 2 * ping_pong_half(tag) {
            place + count
        } else {
            place + count - 2 * ping_pong_half(tag)
        },
    decreases count,
{
    if count > 0 {
        lemma_ping_pong_after(tag, place, (count - 1) as nat);
    }
}

/// One step of a ping-pong tag goes to the next place of its round.
proof fn lemma_ping_pong_step(
    state: AsepriteAnimationView,
    info: AsepriteInfoView,
    tag: AsepriteTagView,
)
    requires
        state.active_tag(info) == Some(tag),
        tag.animation_direction is PingPong,
        tag.end - tag.start >= 2,
        tag.contains(state.current_frame as int),
    ensures
        0 <= state.ping_pong_place(tag) < 2 * ping_pong_half(tag),
        state.current_frame == ping_pong_frame(tag, state.ping_pong_place(tag)),
        state.next_frame(info).active_tag(info) == Some(tag),
        tag.contains(state.next_frame(info).current_frame as int),
        state.next_frame(info).ping_pong_place(tag) == ping_pong_next(
            tag,
            state.ping_pong_place(tag),
        ),
{
}

/// Steps of a ping-pong tag go on along its round.
proof fn lemma_ping_pong_steps(
    state: AsepriteAnimationView,
    info: AsepriteInfoView,
    tag: AsepriteTagView,
    count: nat,
)
    requires
        state.active_tag(info) == Some(tag),
        tag.animation_direction is PingPong,
        tag.end - tag.start >= 2,
        tag.contains(state.current_frame as int),
    ensures
        state.steps(info, count).active_tag(info) == Some(tag),
        tag.contains(state.steps(info, count).current_frame as int),
        state.steps(info, count).ping_pong_place(tag) == ping_pong_after(
            tag,
            state.ping_pong_place(tag),
            count,
        ),
    decreases count,
{
    if count > 0 {
        lemma_ping_pong_steps(state, info, tag, (count - 1) as nat);
        lemma_ping_pong_step(state.steps(info, (count - 1) as nat), info, tag);
    }
}

/// A ping-pong tag of two frames or more turns on its two boundary frames
/// only: played forward, it turns backward on its last frame and nowhere
/// else, and elsewhere goes one frame up; played backward, it turns forward
/// on its first frame and nowhere else, and elsewhere goes one frame down.
/// On a boundary it goes to the frame next to it.
pub proof fn lemma_ping_pong_turns(
    state: AsepriteAnimationView,
    info: AsepriteInfoView,
    tag: AsepriteTagView,
)
    requires
        state.active_tag(info) == Some(tag),
        tag.animation_direction is PingPong,
        tag.end - tag.start >= 2,
        tag.contains(state.current_frame as int),
    ensures
        tag.contains(state.next_frame(info).current_frame as int),
        state.next_frame(info).forward != state.forward <==> (state.forward && state.current_frame
            == tag.end - 1) || (!state.forward && state.current_frame == tag.start),
        state.next_frame(info).forward ==> state.next_frame(info).current_frame
            == state.current_frame + 1,
        !state.next_frame(info).forward ==> state.next_frame(info).current_frame
            == state.current_frame - 1,
{
}

/// Every frame of a ping-pong tag of two frames or more recurs: from
/// whatever frame of the tag and in whatever direction it is played, each
/// frame of the tag is shown again after at least one step and at most a
/// whole round of steps, and after a whole round the same frame is shown.
/// On the way the direction turns on the two boundary frames only.
pub proof fn lemma_ping_pong(
    state: AsepriteAnimationView,
    info: AsepriteInfoView,
    tag: AsepriteTagView,
)
    requires
        state.active_tag(info) == Some(tag),
        tag.animation_direction is PingPong,
        tag.end - tag.start >= 2,
        tag.contains(state.current_frame as int),
    ensures
        forall|frame: int| #[trigger]
            tag.contains(frame) ==> 1 <= state.ping_pong_wait(tag, frame) <= 2 * ping_pong_half(
                tag,
            ) && state.steps(info, state.ping_pong_wait(tag, frame)).current_frame == frame,
        forall|count: nat|
            (#[trigger] state.steps(info, count + (2 * ping_pong_half(tag)) as nat)).current_frame
                == state.steps(info, count).current_frame,
        forall|count: nat|
            tag.contains((#[trigger] state.steps(info, count)).current_frame as int),
        forall|count: nat|
            (#[trigger] state.steps(info, count + 1)).forward != state.steps(info, count).forward
                ==> state.steps(info, count).current_frame == tag.start || state.steps(
                info,
                count,
            ).current_frame == tag.end - 1,
{
    let half = ping_pong_half(tag);
    let place = state.ping_pong_place(tag);
    lemma_ping_pong_step(state, info, tag);
    assert forall|frame: int| #[trigger] tag.contains(frame) implies 1 <= state.ping_pong_wait(
        tag,
        frame,
    ) <= 2 * half && state.steps(info, state.ping_pong_wait(tag, frame)).current_frame
        == frame by {
        let wait = state.ping_pong_wait(tag, frame);
        lemma_ping_pong_steps(state, info, tag, wait);
        lemma_ping_pong_after(tag, place, wait);
        lemma_ping_pong_step(state.steps(info, wait), info, tag);
    }
    assert forall|count: nat|
        (#[trigger] state.steps(info, count + (2 * half) as nat)).current_frame == state.steps(
            info,
            count,
        ).current_frame by {
        let round = (2 * half) as nat;
        let now = state.steps(info, count);
        lemma_ping_pong_steps(state, info, tag, count);
        lemma_steps_from(state, info, count, round);
        lemma_ping_pong_step(now, info, tag);
        lemma_ping_pong_steps(now, info, tag, round);
        lemma_ping_pong_after(tag, now.ping_pong_place(tag), round);
        lemma_ping_pong_step(now.steps(info, round), info, tag);
    }
    assert forall|count: nat|
        tag.contains((#[trigger] state.steps(info, count)).current_frame as int) by {
        lemma_ping_pong_steps(state, info, tag, count);
    }
    assert forall|count: nat|
        (#[trigger] state.steps(info, count + 1)).forward != state.steps(info, count).forward
        implies state.steps(info, count).current_frame == tag.start || state.steps(
        info,
        count,
    ).current_frame == tag.end - 1 by {
        lemma_ping_pong_steps(state, info, tag, count);
        lemma_ping_pong_turns(state.steps(info, count), info, tag);
        assert(state.steps(info, count + 1) == state.steps(info, count).next_frame(info));
    }
}

/// The name of a tag that stands for an animation
#[derive(Debug, Default, Copy, Clone, PartialEq, Eq)]
pub struct AsepriteTag(&'static str);

impl AsepriteTag {
    /// Create a new tag
    pub fn new(id: &'static str) -> (tag: AsepriteTag)
        ensures
            tag.name()@ == id@,
    {
        AsepriteTag(id)
    }

    /// The name of the tag
    pub closed spec fn name(self) -> &'static str {
        self.0
    }

    /// The name of the tag
    pub fn as_str(&self) -> (name: &'static str)
        ensures
            name@ == self.name()@,
    {
        self.0
    }
}

} // verus!
