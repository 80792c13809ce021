use aseprite_reader::anim::{AsepriteAnimation, AsepriteTag, NANOS_PER_MILLI};
use aseprite_reader::raw::AsepriteAnimationDirection;
use aseprite_reader::slice::AsepriteSlice;
use aseprite_reader::table::NameMap;
use aseprite_reader::{AsepriteFrameInfo, AsepriteInfo};

const MS: u128 = NANOS_PER_MILLI;

/// A document of six frames; frame n is shown for 10 * (n + 1) milliseconds.
fn info() -> AsepriteInfo {
    let mut tags = NameMap::new();
    for (name, frames, direction) in [
        ("forward", 1u16..4u16, AsepriteAnimationDirection::Forward),
        ("reverse", 1..4, AsepriteAnimationDirection::Reverse),
        ("pingpong", 2..5, AsepriteAnimationDirection::PingPong),
        ("one", 5..6, AsepriteAnimationDirection::Forward),
    ] {
        tags.insert(
            name.to_string(),
            aseprite_reader::AsepriteTag {
                frames,
                animation_direction: direction,
                name: name.to_string(),
            },
        );
    }
    AsepriteInfo {
        dimensions: (1, 1),
        tags,
        slices: NameMap::new(),
        frame_count: 6,
        palette: None,
        transparent_palette: None,
        frame_infos: (1..=6).map(|n| AsepriteFrameInfo { delay_ms: 10 * n }).collect(),
    }
}

/// The frames that are shown after each of `count` steps.
fn frames_after_reset(tag: &str, count: usize) -> Vec<usize> {
    let info = info();
    let mut animation = AsepriteAnimation::from(tag);
    animation.reset(&info);
    let mut frames = vec![animation.current_frame()];
    for _ in 0..count {
        animation.next_frame(&info);
        frames.push(animation.current_frame());
    }
    frames
}

#[test]
fn new_animation_is_playing_and_waits_for_its_tag() {
    let animation = AsepriteAnimation::default();
    assert!(animation.is_playing());
    assert!(!animation.is_paused());
    assert_eq!(animation.current_frame(), 0);
    assert_eq!(animation, AsepriteAnimation::new(None));
    assert_eq!(AsepriteAnimation::from("walk"), AsepriteAnimation::from("walk".to_string()));
    assert_ne!(AsepriteAnimation::from("walk"), AsepriteAnimation::default());
}

#[test]
fn all_frames_follow_each_other_and_wrap_around() {
    let info = info();
    let mut animation = AsepriteAnimation::default();
    animation.reset(&info);
    let mut frames = Vec::new();
    for _ in 0..8 {
        animation.next_frame(&info);
        frames.push(animation.current_frame());
    }
    assert_eq!(frames, vec![1, 2, 3, 4, 5, 0, 1, 2]);
}

#[test]
fn forward_tag_is_a_cycle() {
    assert_eq!(frames_after_reset("forward", 7), vec![1, 2, 3, 1, 2, 3, 1, 2]);
    assert_eq!(frames_after_reset("one", 3), vec![5, 5, 5, 5]);
}

#[test]
fn reverse_tag_is_a_cycle_in_the_opposite_order() {
    assert_eq!(frames_after_reset("reverse", 7), vec![3, 2, 1, 3, 2, 1, 3, 2]);
    // From the first frame of the tag, as many steps as it has frames lead back to it.
    let info = info();
    let mut animation = AsepriteAnimation::from("reverse");
    animation.reset(&info);
    animation.next_frame(&info);
    animation.next_frame(&info);
    assert_eq!(animation.current_frame(), 1);
    for _ in 0..3 {
        animation.next_frame(&info);
    }
    assert_eq!(animation.current_frame(), 1);
}

#[test]
fn ping_pong_tag_goes_up_and_down() {
    assert_eq!(frames_after_reset("pingpong", 9), vec![2, 3, 4, 3, 2, 3, 4, 3, 2, 3]);
}

/// A document of `frame_count` frames of 10 ms with one ping-pong tag.
fn ping_pong_info(frames: std::ops::Range<u16>, frame_count: usize) -> AsepriteInfo {
    let mut tags = NameMap::new();
    tags.insert("t".to_string(), tag(frames, AsepriteAnimationDirection::PingPong));
    AsepriteInfo {
        dimensions: (1, 1),
        tags,
        slices: NameMap::new(),
        frame_count,
        palette: None,
        transparent_palette: None,
        frame_infos: (0..frame_count).map(|_| AsepriteFrameInfo { delay_ms: 10 }).collect(),
    }
}

#[test]
fn ping_pong_turns_backward_on_its_last_frame() {
    let info = ping_pong_info(0..3, 3);
    let mut animation = AsepriteAnimation::from("t");
    animation.reset(&info);
    animation.next_frame(&info);
    animation.next_frame(&info);
    // Played forward, on the last frame.
    assert_eq!(animation.current_frame(), 2);
    animation.next_frame(&info);
    assert_eq!(animation.current_frame(), 1);
    // It is played backward now: the next frame is the one below.
    animation.next_frame(&info);
    assert_eq!(animation.current_frame(), 0);
}

#[test]
fn ping_pong_keeps_going_backward_inside_its_range() {
    let info = ping_pong_info(0..4, 4);
    let mut animation = AsepriteAnimation::from("t");
    animation.reset(&info);
    for expected in [1, 2, 3, 2] {
        animation.next_frame(&info);
        assert_eq!(animation.current_frame(), expected);
    }
    // Played backward, on frame 2.
    animation.next_frame(&info);
    assert_eq!(animation.current_frame(), 1);
    animation.next_frame(&info);
    assert_eq!(animation.current_frame(), 0);
    // On the first frame it turns forward.
    animation.next_frame(&info);
    assert_eq!(animation.current_frame(), 1);
    animation.next_frame(&info);
    assert_eq!(animation.current_frame(), 2);
}

#[test]
fn ping_pong_of_two_frames_alternates() {
    let info = ping_pong_info(3..5, 6);
    let mut animation = AsepriteAnimation::from("t");
    animation.reset(&info);
    let mut frames = vec![animation.current_frame()];
    for _ in 0..5 {
        animation.next_frame(&info);
        frames.push(animation.current_frame());
    }
    assert_eq!(frames, vec![3, 4, 3, 4, 3, 4]);
}

#[test]
fn ping_pong_shows_every_frame_again_within_a_round() {
    let info = ping_pong_info(1..6, 6);
    let mut animation = AsepriteAnimation::from("t");
    animation.reset(&info);
    // A round of a tag of five frames has eight steps.
    for _ in 0..11 {
        let mut ahead = AsepriteAnimation::from("t");
        ahead.reset(&info);
        while ahead != animation {
            ahead.next_frame(&info);
        }
        let mut seen = Vec::new();
        for _ in 0..8 {
            ahead.next_frame(&info);
            seen.push(ahead.current_frame());
        }
        for frame in 1..6 {
            assert!(seen.contains(&frame));
        }
        // After a whole round the same frame is shown.
        assert_eq!(ahead.current_frame(), animation.current_frame());
        animation.next_frame(&info);
    }
}

#[test]
fn ping_pong_update_plays_up_and_down() {
    let info = info();
    let mut animation = AsepriteAnimation::from("pingpong");
    assert!(animation.update(&info, 0));
    assert_eq!(animation.current_frame(), 2);
    // 30 ms on frame 2, 40 ms on frame 3, 50 ms on frame 4, then frame 3 again.
    assert!(animation.update(&info, 120 * MS));
    assert_eq!(animation.current_frame(), 3);
    assert!(!animation.update(&info, 39 * MS));
    assert!(animation.update(&info, 1 * MS));
    assert_eq!(animation.current_frame(), 2);
    assert!(animation.update(&info, 30 * MS));
    assert_eq!(animation.current_frame(), 3);
}

#[test]
fn reset_forgets_the_time_that_has_gone_by() {
    let info = info();
    let mut animation = AsepriteAnimation::from("forward");
    assert!(animation.update(&info, 0));
    assert!(!animation.update(&info, 19 * MS));
    animation.reset(&info);
    assert_eq!(animation.current_frame(), 1);
    // Frame 1 is shown for 20 ms from the reset on.
    assert!(!animation.update(&info, 1 * MS));
    assert!(!animation.update(&info, 18 * MS));
    assert!(animation.update(&info, 1 * MS));
    assert_eq!(animation.current_frame(), 2);
    assert!(!animation.update(&info, 29 * MS));
    animation.reset(&info);
    assert_eq!(animation.current_frame(), 1);
    assert!(!animation.update(&info, 19 * MS));
}

#[test]
fn missing_tag_leaves_the_frame() {
    assert_eq!(frames_after_reset("nothing", 3), vec![0, 0, 0, 0]);
    let info = info();
    let mut animation = AsepriteAnimation::from("nothing");
    animation.current_frame = 4;
    assert!(animation.update(&info, 0));
    assert_eq!(animation.current_frame(), 4);
    assert!(!animation.update(&info, 49 * MS));
    assert!(animation.update(&info, MS));
    assert_eq!(animation.current_frame(), 4);
}

#[test]
fn first_update_takes_up_the_tag_and_no_time() {
    let info = info();
    let mut animation = AsepriteAnimation::from("reverse");
    assert!(animation.update(&info, 1_000_000 * MS));
    assert_eq!(animation.current_frame(), 3);
    assert!(!animation.update(&info, 0));
    assert_eq!(animation.current_frame(), 3);
    let mut all = AsepriteAnimation::default();
    all.current_frame = 5;
    assert!(all.update(&info, 7));
    assert_eq!(all.current_frame(), 0);
}

#[test]
fn update_takes_frame_durations_off_the_time() {
    let info = info();
    let mut animation = AsepriteAnimation::from("forward");
    assert!(animation.update(&info, 0));
    assert_eq!(animation.current_frame(), 1);
    assert_eq!(animation.current_frame_duration(&info), 20 * MS);
    // Frame 1 is shown for 20 ms.
    assert!(!animation.update(&info, 19 * MS));
    assert_eq!(animation.current_frame(), 1);
    assert!(animation.update(&info, 1 * MS));
    assert_eq!(animation.current_frame(), 2);
    // 30 ms for frame 2, 40 ms for frame 3, and 19 of the 20 ms of frame 1.
    assert!(animation.update(&info, 89 * MS));
    assert_eq!(animation.current_frame(), 1);
    assert!(animation.update(&info, 1 * MS + 1));
    assert_eq!(animation.current_frame(), 2);
    // One nanosecond is left over: 30 ms less one nanosecond are not enough.
    assert!(!animation.update(&info, 30 * MS - 2));
    assert!(animation.update(&info, 1));
    assert_eq!(animation.current_frame(), 3);
}

#[test]
fn long_time_goes_many_frames_on() {
    let info = info();
    let mut animation = AsepriteAnimation::default();
    assert!(animation.update(&info, 0));
    // A round through all six frames takes 210 ms.
    assert!(animation.update(&info, 10 * 210 * MS + 10 * MS + 20 * MS + 5 * MS));
    assert_eq!(animation.current_frame(), 2);
    assert!(!animation.update(&info, 24 * MS));
    assert!(animation.update(&info, 1 * MS));
    assert_eq!(animation.current_frame(), 3);
}

#[test]
fn paused_animation_stays() {
    let info = info();
    let mut animation = AsepriteAnimation::from("forward");
    animation.update(&info, 0);
    animation.pause();
    assert!(animation.is_paused());
    assert!(!animation.update(&info, 1000 * MS));
    assert_eq!(animation.current_frame(), 1);
    animation.toggle();
    assert!(animation.is_playing());
    // Time that went by during the pause is not counted.
    assert!(!animation.update(&info, 19 * MS));
    assert!(animation.update(&info, 1 * MS));
    assert_eq!(animation.current_frame(), 2);
    animation.toggle();
    assert!(animation.is_paused());
    animation.play();
    assert!(animation.is_playing());
}

#[test]
fn tag_and_slice_names() {
    let tag = AsepriteTag::new("walk");
    assert_eq!(tag.as_str(), "walk");
    assert_eq!(tag, AsepriteTag::new("walk"));
    assert_eq!(AsepriteTag::default().as_str(), "");

    let slice = AsepriteSlice::new("button");
    assert_eq!(slice.name(), "button");
    assert!(!slice.is_flipped_x());
    assert!(!slice.is_flipped_y());
    let mut flipped = AsepriteSlice::from("button").flip_x().flip_y();
    assert!(flipped.is_flipped_x() && flipped.is_flipped_y());
    flipped.set_flip_x(false);
    assert!(!flipped.is_flipped_x() && flipped.is_flipped_y());
    flipped.set_flip_y(false);
    flipped.set_flip_x(true);
    assert!(flipped.is_flipped_x() && !flipped.is_flipped_y());
    assert_eq!(AsepriteSlice::default().name(), "");
}

fn tag(frames: std::ops::Range<u16>, direction: AsepriteAnimationDirection) -> aseprite_reader::AsepriteTag {
    aseprite_reader::AsepriteTag { frames, animation_direction: direction, name: "t".to_string() }
}

#[test]
fn playback_can_play_where_its_frames_take_time() {
    let info = info();
    let mut forward = AsepriteAnimation::from("forward");
    // Frame 0 is no frame of the tag.
    assert!(!forward.can_play(&info));
    forward.reset(&info);
    assert!(forward.can_play(&info));
    forward.current_frame = 3;
    assert!(forward.can_play(&info));
    forward.current_frame = 4;
    assert!(!forward.can_play(&info));
    forward.current_frame = 2;

    // Only the frames of the tag that is played count.
    let mut zero_delay = self::info();
    zero_delay.frame_infos[5].delay_ms = 0;
    assert!(forward.can_play(&zero_delay));
    zero_delay.frame_infos[0].delay_ms = 0;
    assert!(forward.can_play(&zero_delay));
    zero_delay.frame_infos[3].delay_ms = 0;
    assert!(!forward.can_play(&zero_delay));
    let mut wide_tag = self::info();
    wide_tag.tags.insert("wide".to_string(), tag(4..7, AsepriteAnimationDirection::Forward));
    assert!(forward.can_play(&wide_tag));
    let mut wide = AsepriteAnimation::from("wide");
    wide.current_frame = 4;
    assert!(!wide.can_play(&wide_tag));
    let mut missing_delay = self::info();
    missing_delay.frame_infos.truncate(3);
    assert!(!forward.can_play(&missing_delay));

    // A ping-pong tag has two frames or more.
    let mut short = self::info();
    short.tags.insert("short".to_string(), tag(3..4, AsepriteAnimationDirection::PingPong));
    let mut ping_pong = AsepriteAnimation::from("short");
    ping_pong.current_frame = 3;
    assert!(!ping_pong.can_play(&short));
    short.tags.insert("short".to_string(), tag(3..5, AsepriteAnimationDirection::PingPong));
    assert!(ping_pong.can_play(&short));

    // Without a tag, all frames of the document count.
    let mut all = AsepriteAnimation::default();
    assert!(all.can_play(&info));
    all.current_frame = 5;
    assert!(all.can_play(&info));
    all.current_frame = 6;
    assert!(!all.can_play(&info));
    all.current_frame = 1;
    assert!(!all.can_play(&zero_delay));
    let mut no_frames = self::info();
    no_frames.frame_count = 0;
    no_frames.frame_infos.clear();
    all.current_frame = 0;
    assert!(!all.can_play(&no_frames));

    // With a tag that the document does not have, the frame that is shown counts.
    let mut nothing = AsepriteAnimation::from("nothing");
    nothing.current_frame = 5;
    assert!(nothing.can_play(&info));
    assert!(!nothing.can_play(&zero_delay));
    nothing.current_frame = 6;
    assert!(!nothing.can_play(&info));
}

#[test]
fn tag_can_be_taken_up_unless_reverse_without_frames() {
    let mut info = info();
    assert!(AsepriteAnimation::from("reverse").can_reset(&info));
    assert!(AsepriteAnimation::from("nothing").can_reset(&info));
    assert!(AsepriteAnimation::default().can_reset(&info));
    info.tags.insert("none".to_string(), tag(0..0, AsepriteAnimationDirection::Reverse));
    assert!(!AsepriteAnimation::from("none").can_reset(&info));
    info.tags.insert("none".to_string(), tag(0..0, AsepriteAnimationDirection::Forward));
    assert!(AsepriteAnimation::from("none").can_reset(&info));
}

#[test]
fn checked_update_leaves_the_animation_where_playback_cannot_run() {
    let mut zero_delay = info();
    zero_delay.frame_infos[2].delay_ms = 0;
    let mut animation = AsepriteAnimation::from("forward");
    // Taking up the tag asks nothing of the delays.
    assert_eq!(animation.checked_update(&zero_delay, 5), Some(true));
    assert_eq!(animation.current_frame(), 1);
    let taken = AsepriteAnimation::from("forward");
    assert_ne!(animation, taken);
    assert_eq!(animation.checked_update(&zero_delay, 5), None);
    assert_eq!(animation.current_frame(), 1);

    let info = info();
    assert_eq!(animation.checked_update(&info, 5), Some(false));
    assert_eq!(animation.checked_update(&info, 20 * MS), Some(true));
    assert_eq!(animation.current_frame(), 2);

    // A frame outside the tag, or outside the document.
    animation.current_frame = 5;
    assert_eq!(animation.checked_update(&info, 1), None);
    assert_eq!(animation.current_frame(), 5);
    animation.current_frame = 6;
    assert_eq!(animation.checked_update(&info, 1), None);
    let mut fresh = AsepriteAnimation::default();
    fresh.current_frame = 6;
    assert_eq!(fresh.checked_update(&info, 1), Some(true));
    assert_eq!(fresh.current_frame(), 0);
    fresh.current_frame = 6;
    assert_eq!(fresh.checked_update(&info, 1), None);
    assert_eq!(fresh.current_frame(), 6);
    fresh.current_frame = 0;

    // More time than can be counted.
    assert_eq!(fresh.checked_update(&info, 5 * MS), Some(false));
    assert_eq!(fresh.checked_update(&info, u128::MAX), None);
    assert_eq!(fresh.current_frame(), 0);
    assert_eq!(fresh.checked_update(&info, 5 * MS), Some(true));
    assert_eq!(fresh.current_frame(), 1);

    // A reverse tag without a frame cannot be taken up.
    let mut broken = self::info();
    broken.tags.insert("none".to_string(), tag(0..0, AsepriteAnimationDirection::Reverse));
    let mut none = AsepriteAnimation::from("none");
    assert_eq!(none.checked_update(&broken, 1), None);
    assert_eq!(none, AsepriteAnimation::from("none"));
}

#[test]
fn paused_animation_stays_on_any_document() {
    let mut broken = info();
    broken.frame_count = 0;
    broken.frame_infos.clear();
    broken.tags.insert("wide".to_string(), tag(4..7, AsepriteAnimationDirection::PingPong));
    for name in ["forward", "wide", "nothing"] {
        let mut animation = AsepriteAnimation::from(name);
        animation.reset(&broken);
        animation.current_frame = 9;
        animation.pause();
        let mut same = AsepriteAnimation::from(name);
        same.reset(&broken);
        same.current_frame = 9;
        same.pause();
        assert!(!animation.update(&broken, 1000 * MS));
        assert_eq!(animation, same);
        assert!(!animation.update(&broken, u128::MAX));
        assert_eq!(animation, same);
        assert_eq!(animation.checked_update(&broken, u128::MAX), Some(false));
        assert_eq!(animation, same);
    }
    let mut all = AsepriteAnimation::default();
    all.reset(&broken);
    all.pause();
    assert!(!all.update(&broken, 5 * MS));
    assert_eq!(all.current_frame(), 0);
}
