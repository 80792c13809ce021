//! The parsers of the header, of the frames and of a whole file.

use vstd::prelude::*;

use crate::chunks::{aseprite_chunk, spec_chunk};
use crate::error::{AsepriteError, AsepriteParseError, ParseFailure, ReadErrorKind};
use crate::primitives::{
    eof,
    eof_failure,
    i16_at,
    read_i16,
    read_u16,
    read_u32,
    read_u8,
    rest_from,
    tag_failure,
    u16_at,
    u32_at,
};
use crate::raw::{
    views,
    AsepriteColorDepth,
    RawAseprite,
    RawAsepriteChunk,
    RawAsepriteChunkView,
    RawAsepriteFrame,
    RawAsepriteFrameView,
    RawAsepriteHeader,
    RawAsepriteView,
};

verus! {

/// The magic number of a file.
pub const ASEPRITE_MAGIC_NUMBER: u16 = 0xA5E0;

/// The magic number of a frame.
pub const ASEPRITE_FRAME_MAGIC_NUMBER: u16 = 0xF1FA;

/// The number of bytes of the header.
pub const ASEPRITE_HEADER_SIZE: usize = 128;

/// The color depth that a code stands for.
pub open spec fn depth_of(code: u16) -> Option<AsepriteColorDepth> {
    if code == 32 {
        Some(AsepriteColorDepth::RGBA)
    } else if code == 16 {
        Some(AsepriteColorDepth::Grayscale)
    } else if code == 8 {
        Some(AsepriteColorDepth::Indexed)
    } else {
        None
    }
}

/// A color depth: a 16-bit code, 32, 16 or 8.
pub open spec fn spec_color_depth(s: Seq<u8>) -> Result<(AsepriteColorDepth, Seq<u8>), ParseFailure> {
    if s.len() < 2 {
        Err(eof_failure())
    } else {
        match depth_of(u16_at(s, 0)) {
            Some(depth) => Ok((depth, s.skip(2))),
            None => Err(ParseFailure::Fatal(AsepriteParseError::InvalidColorDepth(u16_at(s, 0)))),
        }
    }
}

/// Reads a color depth.
pub fn color_depth<'a>(input: &'a [u8]) -> (res: Result<(AsepriteColorDepth, &'a [u8]), ParseFailure>)
    ensures
        match res {
            Ok((depth, rest)) => spec_color_depth(input@) == Ok::<
                (AsepriteColorDepth, Seq<u8>),
                ParseFailure,
            >((depth, rest@)),
            Err(e) => spec_color_depth(input@) == Err::<
                (AsepriteColorDepth, Seq<u8>),
                ParseFailure,
            >(e),
        },
{
    if input.len() < 2 {
        return Err(eof());
    }
    let depth = read_u16(input, 0);
    let input = rest_from(input, 2);
    if depth == 32 {
        Ok((AsepriteColorDepth::RGBA, input))
    } else if depth == 16 {
        Ok((AsepriteColorDepth::Grayscale, input))
    } else if depth == 8 {
        Ok((AsepriteColorDepth::Indexed, input))
    } else {
        Err(ParseFailure::Fatal(AsepriteParseError::InvalidColorDepth(depth)))
    }
}

/// The header whose 128 bytes stand at the front of the input, with the
/// color depth that its code stands for.
pub open spec fn header_at(s: Seq<u8>, depth: AsepriteColorDepth) -> RawAsepriteHeader {
    RawAsepriteHeader {
        file_size: u32_at(s, 0),
        magic_number: ASEPRITE_MAGIC_NUMBER,
        frames: u16_at(s, 6),
        width: u16_at(s, 8),
        height: u16_at(s, 10),
        color_depth: depth,
        flags: u32_at(s, 14),
        speed: u16_at(s, 18),
        transparent_palette: s[28],
        color_count: u16_at(s, 32),
        pixel_width: s[34],
        pixel_height: s[35],
        grid_x: i16_at(s, 36),
        grid_y: i16_at(s, 38),
        grid_width: u16_at(s, 40),
        grid_height: u16_at(s, 42),
    }
}

/// The header of a file: 128 bytes.
///
/// The file size is followed by the magic number, which has to be right,
/// then by the number of frames, the width, the height and the code of the
/// color depth, which has to be one of the three. The flags, the speed, the
/// transparent palette index, the number of colors, the size of a pixel and
/// the grid follow at their places; the bytes between and after them are
/// passed over.
pub open spec fn spec_header(s: Seq<u8>) -> Result<(RawAsepriteHeader, Seq<u8>), ParseFailure> {
    if s.len() < 4 {
        Err(eof_failure())
    } else if s.len() < 6 || u16_at(s, 4) != ASEPRITE_MAGIC_NUMBER {
        Err(tag_failure())
    } else if s.len() < 12 {
        Err(eof_failure())
    } else {
        match spec_color_depth(s.skip(12)) {
            Ok((depth, _)) => if s.len() < 128 {
                Err(eof_failure())
            } else {
                Ok((header_at(s, depth), s.skip(128)))
            },
            Err(e) => Err(e),
        }
    }
}

/// Reads the header of a file.
pub fn aseprite_header<'a>(input: &'a [u8]) -> (res: Result<
    (RawAsepriteHeader, &'a [u8]),
    ParseFailure,
>)
    ensures
        match res {
            Ok((header, rest)) => spec_header(input@) == Ok::<
                (RawAsepriteHeader, Seq<u8>),
                ParseFailure,
            >((header, rest@)),
            Err(e) => spec_header(input@) == Err::<(RawAsepriteHeader, Seq<u8>), ParseFailure>(e),
        },
{
    if input.len() < 4 {
        return Err(eof());
    }
    let file_size = read_u32(input, 0);
    if input.len() < 6 || read_u16(input, 4) != ASEPRITE_MAGIC_NUMBER {
        return Err(
            ParseFailure::Recoverable(AsepriteParseError::Generic { kind: ReadErrorKind::Tag }),
        );
    }
    if input.len() < 12 {
        return Err(eof());
    }
    let frames = read_u16(input, 6);
    let width = read_u16(input, 8);
    let height = read_u16(input, 10);
    let color_depth = match color_depth(rest_from(input, 12)) {
        Ok((depth, _)) => depth,
        Err(e) => {
            return Err(e);
        },
    };
    if input.len() < ASEPRITE_HEADER_SIZE {
        return Err(eof());
    }
    Ok(
        (
            RawAsepriteHeader {
                file_size,
                magic_number: ASEPRITE_MAGIC_NUMBER,
                frames,
                width,
                height,
                color_depth,
                flags: read_u32(input, 14),
                speed: read_u16(input, 18),
                transparent_palette: read_u8(input, 28),
                color_count: read_u16(input, 32),
                pixel_width: read_u8(input, 34),
                pixel_height: read_u8(input, 35),
                grid_x: read_i16(input, 36),
                grid_y: read_i16(input, 38),
                grid_width: read_u16(input, 40),
                grid_height: read_u16(input, 42),
            },
            rest_from(input, ASEPRITE_HEADER_SIZE),
        ),
    )
}

/// A run of `count` chunks, one after the other; chunks of types that are
/// not read are left out. The first chunk that cannot be read ends the run
/// with its failure.
pub open spec fn spec_chunks(s: Seq<u8>, header: RawAsepriteHeader, count: nat) -> Result<
    (Seq<RawAsepriteChunkView>, Seq<u8>),
    ParseFailure,
>
    decreases count,
{
    if count == 0 {
        Ok((Seq::empty(), s))
    } else {
        match spec_chunks(s, header, (count - 1) as nat) {
            Ok((chunks, rest)) => match spec_chunk(rest, header) {
                Ok((Some(chunk), after)) => Ok((chunks.push(chunk), after)),
                Ok((None, after)) => Ok((chunks, after)),
                Err(e) => Err(e),
            },
            Err(e) => Err(e),
        }
    }
}

/// Once a chunk has failed, the chunks after it change nothing.
pub proof fn lemma_chunks_failure_stays(
    s: Seq<u8>,
    header: RawAsepriteHeader,
    failed: nat,
    count: nat,
)
    requires
        failed <= count,
        spec_chunks(s, header, failed) is Err,
    ensures
        spec_chunks(s, header, count) == spec_chunks(s, header, failed),
    decreases count,
{
    if failed < count {
        lemma_chunks_failure_stays(s, header, failed, (count - 1) as nat);
    }
}

/// A run of chunks leaves no more input than there was.
pub proof fn lemma_chunks_rest(s: Seq<u8>, header: RawAsepriteHeader, count: nat)
    ensures
        spec_chunks(s, header, count) matches Ok((_, rest)) ==> rest.len() <= s.len(),
    decreases count,
{
    if count > 0 {
        lemma_chunks_rest(s, header, (count - 1) as nat);
    }
}

/// Reads a run of chunks.
pub fn aseprite_chunks<'a>(input: &'a [u8], header: &RawAsepriteHeader, count: usize) -> (res:
    Result<(Vec<RawAsepriteChunk>, &'a [u8]), ParseFailure>)
    ensures
        match res {
            Ok((chunks, rest)) => spec_chunks(input@, *header, count as nat) == Ok::<
                (Seq<RawAsepriteChunkView>, Seq<u8>),
                ParseFailure,
            >((views(chunks@), rest@)) && forall|i: int|
                0 <= i < chunks.len() ==> (#[trigger] chunks[i])@.well_formed(),
            Err(e) => spec_chunks(input@, *header, count as nat) == Err::<
                (Seq<RawAsepriteChunkView>, Seq<u8>),
                ParseFailure,
            >(e),
        },
{
    let mut chunks: Vec<RawAsepriteChunk> = Vec::new();
    let mut rest = input;
    let mut i: usize = 0;
    assert(views(chunks@) =~= Seq::<RawAsepriteChunkView>::empty());
    while i < count
        invariant
            i <= count,
            spec_chunks(input@, *header, i as nat) == Ok::<
                (Seq<RawAsepriteChunkView>, Seq<u8>),
                ParseFailure,
            >((views(chunks@), rest@)),
            forall|k: int| 0 <= k < chunks.len() ==> (#[trigger] chunks[k])@.well_formed(),
        decreases count - i,
    {
        let ghost before = views(chunks@);
        match aseprite_chunk(rest, header) {
            Ok((chunk, after)) => {
                match chunk {
                    Some(chunk) => {
                        chunks.push(chunk);
                        assert(views(chunks@) =~= before.push(chunk@));
                    },
                    None => {},
                }
                rest = after;
            },
            Err(e) => {
                proof {
                    lemma_chunks_failure_stays(input@, *header, (i + 1) as nat, count as nat);
                }
                return Err(e);
            },
        }
        i += 1;
    }
    Ok((chunks, rest))
}

/// The number of chunks that a frame declares: the newer, 32-bit count, or
/// the older, 16-bit one where the newer is 0.
pub open spec fn chunk_count_of(old_count: u16, new_count: u32) -> nat {
    if new_count == 0 {
        old_count as nat
    } else {
        new_count as nat
    }
}

/// A frame: its magic number, which has to be right, the older count of
/// chunks and the duration in milliseconds as 16-bit numbers, two bytes
/// that are passed over, the newer count of chunks as a 32-bit number, and
/// the chunks.
pub open spec fn spec_frame(s: Seq<u8>, header: RawAsepriteHeader) -> Result<
    (RawAsepriteFrameView, Seq<u8>),
    ParseFailure,
> {
    if s.len() < 2 || u16_at(s, 0) != ASEPRITE_FRAME_MAGIC_NUMBER {
        Err(tag_failure())
    } else if s.len() < 12 {
        Err(eof_failure())
    } else {
        match spec_chunks(s.skip(12), header, chunk_count_of(u16_at(s, 2), u32_at(s, 8))) {
            Ok((chunks, rest)) => Ok(
                (
                    RawAsepriteFrameView {
                        magic_number: ASEPRITE_FRAME_MAGIC_NUMBER,
                        duration_ms: u16_at(s, 4),
                        chunks,
                    },
                    rest,
                ),
            ),
            Err(e) => Err(e),
        }
    }
}

/// Reads a frame.
pub fn aseprite_frame<'a>(input: &'a [u8], header: &RawAsepriteHeader) -> (res: Result<
    (RawAsepriteFrame, &'a [u8]),
    ParseFailure,
>)
    ensures
        match res {
            Ok((frame, rest)) => spec_frame(input@, *header) == Ok::<
                (RawAsepriteFrameView, Seq<u8>),
                ParseFailure,
            >((frame@, rest@)) && frame@.well_formed(),
            Err(e) => spec_frame(input@, *header) == Err::<
                (RawAsepriteFrameView, Seq<u8>),
                ParseFailure,
            >(e),
        },
{
    if input.len() < 2 || read_u16(input, 0) != ASEPRITE_FRAME_MAGIC_NUMBER {
        return Err(
            ParseFailure::Recoverable(AsepriteParseError::Generic { kind: ReadErrorKind::Tag }),
        );
    }
    if input.len() < 12 {
        return Err(eof());
    }
    let small_chunk_count = read_u16(input, 2);
    let duration_ms = read_u16(input, 4);
    let chunk_count = read_u32(input, 8);
    // An older file may not set the newer count yet.
    let actual_count = if chunk_count == 0 {
        small_chunk_count as usize
    } else {
        chunk_count as usize
    };
    match aseprite_chunks(rest_from(input, 12), header, actual_count) {
        Ok((chunks, rest)) => {
            let frame = RawAsepriteFrame {
                magic_number: ASEPRITE_FRAME_MAGIC_NUMBER,
                duration_ms,
                chunks,
            };
            assert forall|i: int| 0 <= i < frame@.chunks.len() implies (
            #[trigger] frame@.chunks[i]).well_formed() by {
                assert(frame@.chunks[i] == chunks[i]@);
            }
            Ok((frame, rest))
        },
        Err(e) => Err(e),
    }
}

/// A frame as it stands in the file: four bytes that are passed over, then
/// the frame.
#[verifier::opaque]
pub open spec fn spec_frame_record(s: Seq<u8>, header: RawAsepriteHeader) -> Result<
    (RawAsepriteFrameView, Seq<u8>),
    ParseFailure,
> {
    if s.len() < 4 {
        Err(eof_failure())
    } else {
        spec_frame(s.skip(4), header)
    }
}

/// A frame record leaves less input than there was.
pub proof fn lemma_frame_record_consumes(s: Seq<u8>, header: RawAsepriteHeader)
    ensures
        spec_frame_record(s, header) matches Ok((_, rest)) ==> rest.len() < s.len(),
{
    reveal(spec_frame_record);
    if s.len() >= 4 {
        let inner = s.skip(4);
        if inner.len() >= 12 {
            lemma_chunks_rest(
                inner.skip(12),
                header,
                chunk_count_of(u16_at(inner, 2), u32_at(inner, 8)),
            );
        }
    }
}

fn frame_record<'a>(input: &'a [u8], header: &RawAsepriteHeader) -> (res: Result<
    (RawAsepriteFrame, &'a [u8]),
    ParseFailure,
>)
    ensures
        match res {
            Ok((frame, rest)) => spec_frame_record(input@, *header) == Ok::<
                (RawAsepriteFrameView, Seq<u8>),
                ParseFailure,
            >((frame@, rest@)) && frame@.well_formed() && rest@.len() < input@.len(),
            Err(e) => spec_frame_record(input@, *header) == Err::<
                (RawAsepriteFrameView, Seq<u8>),
                ParseFailure,
            >(e),
        },
{
    proof {
        reveal(spec_frame_record);
        lemma_frame_record_consumes(input@, *header);
    }
    if input.len() < 4 {
        return Err(eof());
    }
    aseprite_frame(rest_from(input, 4), header)
}

/// Frames with more frames in front of them.
pub open spec fn after_frames(
    front: Seq<RawAsepriteFrameView>,
    more: Result<(Seq<RawAsepriteFrameView>, Seq<u8>), ParseFailure>,
) -> Result<(Seq<RawAsepriteFrameView>, Seq<u8>), ParseFailure> {
    match more {
        Ok((frames, rest)) => Ok((front + frames, rest)),
        Err(e) => Err(e),
    }
}

/// The frames that follow the first one: frame records are read until one
/// cannot be read. If it fails in a way that can be recovered from, the
/// frames end in front of it; otherwise its failure is that of the frames.
#[verifier::opaque]
pub open spec fn spec_more_frames(s: Seq<u8>, header: RawAsepriteHeader) -> Result<
    (Seq<RawAsepriteFrameView>, Seq<u8>),
    ParseFailure,
>
    decreases s.len(),
{
    match spec_frame_record(s, header) {
        Ok((frame, rest)) => if rest.len() < s.len() {
            after_frames(seq![frame], spec_more_frames(rest, header))
        } else {
            Ok((seq![frame], rest))
        },
        Err(ParseFailure::Recoverable(_)) => Ok((Seq::empty(), s)),
        Err(ParseFailure::Fatal(e)) => Err(ParseFailure::Fatal(e)),
    }
}

/// The frames of a file: at least one frame record, and frame records to
/// the end of the input.
///
/// It is a failure if the first frame record cannot be read, and one if
/// bytes are left after the last frame record that can be read.
pub open spec fn spec_frames(s: Seq<u8>, header: RawAsepriteHeader) -> Result<
    (Seq<RawAsepriteFrameView>, Seq<u8>),
    ParseFailure,
> {
    match spec_frame_record(s, header) {
        Ok((first, rest)) => match spec_more_frames(rest, header) {
            Ok((more, left)) => if left.len() == 0 {
                Ok((seq![first] + more, left))
            } else {
                Err(eof_failure())
            },
            Err(e) => Err(e),
        },
        Err(e) => Err(e),
    }
}

/// What the frames that follow the first one are, by the frame record at
/// their front.
pub proof fn lemma_more_frames_step(s: Seq<u8>, header: RawAsepriteHeader)
    ensures
        match spec_frame_record(s, header) {
            Ok((frame, rest)) => spec_more_frames(s, header) == after_frames(
                seq![frame],
                spec_more_frames(rest, header),
            ),
            Err(ParseFailure::Recoverable(_)) => spec_more_frames(s, header) == Ok::<
                (Seq<RawAsepriteFrameView>, Seq<u8>),
                ParseFailure,
            >((Seq::empty(), s)),
            Err(ParseFailure::Fatal(e)) => spec_more_frames(s, header) == Err::<
                (Seq<RawAsepriteFrameView>, Seq<u8>),
                ParseFailure,
            >(ParseFailure::Fatal(e)),
        },
{
    reveal(spec_more_frames);
    lemma_frame_record_consumes(s, header);
}

/// Frames in front of frames in front of more frames are frames in front
/// of more frames.
proof fn lemma_after_frames_push(
    front: Seq<RawAsepriteFrameView>,
    frame: RawAsepriteFrameView,
    more: Result<(Seq<RawAsepriteFrameView>, Seq<u8>), ParseFailure>,
)
    ensures
        after_frames(front, after_frames(seq![frame], more)) == after_frames(
            front.push(frame),
            more,
        ),
{
    match more {
        Ok((frames, rest)) => {
            assert(front + (seq![frame] + frames) =~= front.push(frame) + frames);
        },
        Err(_) => {},
    }
}

/// Reads the frames of a file.
pub fn aseprite_frames<'a>(input: &'a [u8], header: &RawAsepriteHeader) -> (res: Result<
    (Vec<RawAsepriteFrame>, &'a [u8]),
    ParseFailure,
>)
    ensures
        match res {
            Ok((frames, rest)) => spec_frames(input@, *header) == Ok::<
                (Seq<RawAsepriteFrameView>, Seq<u8>),
                ParseFailure,
            >((views(frames@), rest@)) && rest@.len() == 0 && frames.len() >= 1 && forall|i: int|
                0 <= i < frames.len() ==> (#[trigger] frames[i])@.well_formed(),
            Err(e) => spec_frames(input@, *header) == Err::<
                (Seq<RawAsepriteFrameView>, Seq<u8>),
                ParseFailure,
            >(e),
        },
{
    let (first, after_first) = match frame_record(input, header) {
        Ok((first, rest)) => (first, rest),
        Err(e) => {
            return Err(e);
        },
    };
    let ghost first_view = first@;
    let ghost mut tail: Seq<RawAsepriteFrameView> = Seq::empty();
    let mut frames: Vec<RawAsepriteFrame> = Vec::new();
    frames.push(first);
    let mut rest = after_first;
    proof {
        assert(views(frames@) =~= seq![first_view] + tail);
        let more = spec_more_frames(after_first@, *header);
        match more {
            Ok((found, left)) => {
                assert(tail + found =~= found);
            },
            Err(_) => {},
        }
    }
    let mut done = false;
    while !done
        invariant
            frames.len() >= 1,
            spec_frame_record(input@, *header) == Ok::<
                (RawAsepriteFrameView, Seq<u8>),
                ParseFailure,
            >((first_view, after_first@)),
            views(frames@) == seq![first_view] + tail,
            forall|k: int| 0 <= k < frames.len() ==> (#[trigger] frames[k])@.well_formed(),
            !done ==> spec_more_frames(after_first@, *header) == after_frames(
                tail,
                spec_more_frames(rest@, *header),
            ),
            done ==> spec_more_frames(after_first@, *header) == Ok::<
                (Seq<RawAsepriteFrameView>, Seq<u8>),
                ParseFailure,
            >((tail, rest@)),
        decreases
                rest@.len(),
                if done {
                    0int
                } else {
                    1int
                },
    {
        let ghost before = views(frames@);
        proof {
            lemma_more_frames_step(rest@, *header);
        }
        match frame_record(rest, header) {
            Ok((frame, after)) => {
                frames.push(frame);
                proof {
                    lemma_after_frames_push(tail, frame@, spec_more_frames(after@, *header));
                    assert(views(frames@) =~= before.push(frame@));
                    assert(before.push(frame@) =~= seq![first_view] + tail.push(frame@));
                    tail = tail.push(frame@);
                }
                rest = after;
            },
            Err(ParseFailure::Recoverable(_)) => {
                proof {
                    assert(tail + Seq::<RawAsepriteFrameView>::empty() =~= tail);
                }
                done = true;
            },
            Err(ParseFailure::Fatal(e)) => {
                return Err(ParseFailure::Fatal(e));
            },
        }
    }
    if rest.len() == 0 {
        Ok((frames, rest))
    } else {
        Err(eof())
    }
}

/// What a file holds: the header, then the frames.
pub open spec fn spec_aseprite(s: Seq<u8>) -> Result<(RawAsepriteView, Seq<u8>), ParseFailure> {
    match spec_header(s) {
        Ok((header, rest)) => match spec_frames(rest, header) {
            Ok((frames, left)) => Ok((RawAsepriteView { header, frames }, left)),
            Err(e) => Err(e),
        },
        Err(e) => Err(e),
    }
}

/// Reads a file.
pub fn aseprite<'a>(input: &'a [u8]) -> (res: Result<(RawAseprite, &'a [u8]), ParseFailure>)
    ensures
        match res {
            Ok((raw, rest)) => spec_aseprite(input@) == Ok::<
                (RawAsepriteView, Seq<u8>),
                ParseFailure,
            >((raw@, rest@)) && raw@.well_formed(),
            Err(e) => spec_aseprite(input@) == Err::<(RawAsepriteView, Seq<u8>), ParseFailure>(e),
        },
{
    let (header, input) = match aseprite_header(input) {
        Ok((header, rest)) => (header, rest),
        Err(e) => {
            return Err(e);
        },
    };
    match aseprite_frames(input, &header) {
        Ok((frames, rest)) => {
            let raw = RawAseprite { header, frames };
            assert forall|i: int| 0 <= i < raw@.frames.len() implies (
            #[trigger] raw@.frames[i]).well_formed() by {
                assert(raw@.frames[i] == frames[i]@);
            }
            Ok((raw, rest))
        },
        Err(e) => Err(e),
    }
}

/// What a byte buffer holds as a raw file, or the error that keeps it from
/// being one.
pub open spec fn spec_read_aseprite(s: Seq<u8>) -> Result<RawAsepriteView, AsepriteError> {
    match spec_aseprite(s) {
        Ok((raw, _)) => Ok(raw),
        Err(failure) => Err(AsepriteError::Parse(failure.spec_error())),
    }
}

/// Read a [`RawAseprite`] from memory
pub fn read_aseprite(input: &[u8]) -> (res: Result<RawAseprite, AsepriteError>)
    ensures
        match res {
            Ok(raw) => spec_read_aseprite(input@) == Ok::<RawAsepriteView, AsepriteError>(raw@)
                && raw@.well_formed(),
            Err(e) => spec_read_aseprite(input@) == Err::<RawAsepriteView, AsepriteError>(e),
        },
{
    match aseprite(input) {
        Ok((raw, _)) => Ok(raw),
        Err(failure) => Err(AsepriteError::Parse(failure.into_error())),
    }
}


/// One of the bytes of an unsigned 16-bit number, the low byte being byte 0.
pub open spec fn byte_of_u16(value: u16, index: int) -> u8 {
    if index == 0 {
        (value % 256) as u8
    } else {
        (value / 256) as u8
    }
}

/// One of the bytes of an unsigned 32-bit number, the low byte being byte 0.
pub open spec fn byte_of_u32(value: u32, index: int) -> u8 {
    if index == 0 {
        (value % 256) as u8
    } else if index == 1 {
        ((value / 256) % 256) as u8
    } else if index == 2 {
        ((value / 65536) % 256) as u8
    } else {
        (value / 16777216) as u8
    }
}

/// One of the bytes of a signed 16-bit number in two's complement, the low
/// byte being byte 0.
pub open spec fn byte_of_i16(value: i16, index: int) -> u8 {
    byte_of_u16(
        if value < 0 {
            (value + 0x1_0000) as u16
        } else {
            value as u16
        },
        index,
    )
}

/// The code of a color depth.
pub open spec fn depth_code(depth: AsepriteColorDepth) -> u16 {
    match depth {
        AsepriteColorDepth::RGBA => 32,
        AsepriteColorDepth::Grayscale => 16,
        AsepriteColorDepth::Indexed => 8,
    }
}

/// Whether a byte of the header belongs to one of its fields, and not to
/// the bytes that are passed over.
pub open spec fn header_field_byte(index: int) -> bool {
    0 <= index < 20 || index == 28 || 32 <= index < 44
}

/// The byte at an index of the 128 bytes that a header is written as. The
/// bytes that belong to no field are written as 0.
pub open spec fn header_byte(header: RawAsepriteHeader, index: int) -> u8 {
    if 0 <= index < 4 {
        byte_of_u32(header.file_size, index)
    } else if 4 <= index < 6 {
        byte_of_u16(header.magic_number, index - 4)
    } else if 6 <= index < 8 {
        byte_of_u16(header.frames, index - 6)
    } else if 8 <= index < 10 {
        byte_of_u16(header.width, index - 8)
    } else if 10 <= index < 12 {
        byte_of_u16(header.height, index - 10)
    } else if 12 <= index < 14 {
        byte_of_u16(depth_code(header.color_depth), index - 12)
    } else if 14 <= index < 18 {
        byte_of_u32(header.flags, index - 14)
    } else if 18 <= index < 20 {
        byte_of_u16(header.speed, index - 18)
    } else if index == 28 {
        header.transparent_palette
    } else if 32 <= index < 34 {
        byte_of_u16(header.color_count, index - 32)
    } else if index == 34 {
        header.pixel_width
    } else if index == 35 {
        header.pixel_height
    } else if 36 <= index < 38 {
        byte_of_i16(header.grid_x, index - 36)
    } else if 38 <= index < 40 {
        byte_of_i16(header.grid_y, index - 38)
    } else if 40 <= index < 42 {
        byte_of_u16(header.grid_width, index - 40)
    } else if 42 <= index < 44 {
        byte_of_u16(header.grid_height, index - 42)
    } else {
        0
    }
}

/// The 128 bytes that a header is written as.
pub open spec fn header_bytes(header: RawAsepriteHeader) -> Seq<u8> {
    Seq::new(ASEPRITE_HEADER_SIZE as nat, |index: int| header_byte(header, index))
}

/// Two bytes are those of a 16-bit number just when they are read as it.
proof fn lemma_u16_bytes(s: Seq<u8>, at: int, value: u16)
    ensures
        u16_at(s, at) == value <==> s[at] == byte_of_u16(value, 0) && s[at + 1] == byte_of_u16(
            value,
            1,
        ),
{
}

/// Four bytes are those of a 32-bit number just when they are read as it.
proof fn lemma_u32_bytes(s: Seq<u8>, at: int, value: u32)
    ensures
        u32_at(s, at) == value <==> s[at] == byte_of_u32(value, 0) && s[at + 1] == byte_of_u32(
            value,
            1,
        ) && s[at + 2] == byte_of_u32(value, 2) && s[at + 3] == byte_of_u32(value, 3),
{
}

/// Two bytes are those of a signed 16-bit number just when they are read
/// as it.
proof fn lemma_i16_bytes(s: Seq<u8>, at: int, value: i16)
    ensures
        i16_at(s, at) == value <==> s[at] == byte_of_i16(value, 0) && s[at + 1] == byte_of_i16(
            value,
            1,
        ),
{
    let unsigned: u16 = if value < 0 {
        (value + 0x1_0000) as u16
    } else {
        value as u16
    };
    lemma_u16_bytes(s, at, unsigned);
}

/// The fields of a header are read from bytes just when the bytes of the
/// fields are those that the header is written with.
proof fn lemma_header_fields(s: Seq<u8>, header: RawAsepriteHeader)
    requires
        s.len() >= 128,
    ensures
        header_at(s, header.color_depth) == header && u16_at(s, 4) == ASEPRITE_MAGIC_NUMBER
            && u16_at(s, 12) == depth_code(header.color_depth) <==> header.magic_number
            == ASEPRITE_MAGIC_NUMBER && forall|i: int|
            #![trigger header_byte(header, i)]
            header_field_byte(i) ==> s[i] == header_byte(header, i),
{
    lemma_u32_bytes(s, 0, header.file_size);
    lemma_u16_bytes(s, 4, header.magic_number);
    lemma_u16_bytes(s, 4, ASEPRITE_MAGIC_NUMBER);
    lemma_u16_bytes(s, 6, header.frames);
    lemma_u16_bytes(s, 8, header.width);
    lemma_u16_bytes(s, 10, header.height);
    lemma_u16_bytes(s, 12, depth_code(header.color_depth));
    lemma_u32_bytes(s, 14, header.flags);
    lemma_u16_bytes(s, 18, header.speed);
    lemma_u16_bytes(s, 32, header.color_count);
    lemma_i16_bytes(s, 36, header.grid_x);
    lemma_i16_bytes(s, 38, header.grid_y);
    lemma_u16_bytes(s, 40, header.grid_width);
    lemma_u16_bytes(s, 42, header.grid_height);
    if header.magic_number == ASEPRITE_MAGIC_NUMBER && forall|i: int|
        #![trigger header_byte(header, i)]
        header_field_byte(i) ==> s[i] == header_byte(header, i) {
        assert(s[0] == header_byte(header, 0) && s[1] == header_byte(header, 1) && s[2]
            == header_byte(header, 2) && s[3] == header_byte(header, 3));
        assert(s[4] == header_byte(header, 4) && s[5] == header_byte(header, 5));
        assert(s[6] == header_byte(header, 6) && s[7] == header_byte(header, 7));
        assert(s[8] == header_byte(header, 8) && s[9] == header_byte(header, 9));
        assert(s[10] == header_byte(header, 10) && s[11] == header_byte(header, 11));
        assert(s[12] == header_byte(header, 12) && s[13] == header_byte(header, 13));
        assert(s[14] == header_byte(header, 14) && s[15] == header_byte(header, 15) && s[16]
            == header_byte(header, 16) && s[17] == header_byte(header, 17));
        assert(s[18] == header_byte(header, 18) && s[19] == header_byte(header, 19));
        assert(s[28] == header_byte(header, 28));
        assert(s[32] == header_byte(header, 32) && s[33] == header_byte(header, 33));
        assert(s[34] == header_byte(header, 34) && s[35] == header_byte(header, 35));
        assert(s[36] == header_byte(header, 36) && s[37] == header_byte(header, 37));
        assert(s[38] == header_byte(header, 38) && s[39] == header_byte(header, 39));
        assert(s[40] == header_byte(header, 40) && s[41] == header_byte(header, 41));
        assert(s[42] == header_byte(header, 42) && s[43] == header_byte(header, 43));
    }
}

/// A header that is written and read again is the header that was written:
/// the bytes of a header with the right magic number, with whatever bytes
/// after them, are read as that header, and the bytes after them are left.
pub proof fn lemma_header_write_read(header: RawAsepriteHeader, rest: Seq<u8>)
    requires
        header.magic_number == ASEPRITE_MAGIC_NUMBER,
    ensures
        spec_header(header_bytes(header) + rest) == Ok::<
            (RawAsepriteHeader, Seq<u8>),
            ParseFailure,
        >((header, rest)),
{
    let s = header_bytes(header) + rest;
    assert(s.len() == 128 + rest.len());
    assert forall|i: int| #![trigger header_byte(header, i)] header_field_byte(i) implies s[i]
        == header_byte(header, i) by {
        assert(s[i] == header_bytes(header)[i]);
    }
    lemma_header_fields(s, header);
    lemma_depth_at(s);
    assert(depth_of(depth_code(header.color_depth)) == Some(header.color_depth));
    assert(s.skip(128) =~= rest);
}

/// The color depth that stands at offset 12 is read from the two bytes
/// there.
proof fn lemma_depth_at(s: Seq<u8>)
    requires
        s.len() >= 14,
    ensures
        spec_color_depth(s.skip(12)) == match depth_of(u16_at(s, 12)) {
            Some(depth) => Ok::<(AsepriteColorDepth, Seq<u8>), ParseFailure>(
                (depth, s.skip(12).skip(2)),
            ),
            None => Err::<(AsepriteColorDepth, Seq<u8>), ParseFailure>(
                ParseFailure::Fatal(AsepriteParseError::InvalidColorDepth(u16_at(s, 12))),
            ),
        },
{
    let depth_bytes = s.skip(12);
    assert(depth_bytes[0] == s[12] && depth_bytes[1] == s[13]);
}

/// A header that is read and written again gives the bytes that were read:
/// where bytes are read as a header, every byte of a field of the header is
/// the byte that the header is written with.
pub proof fn lemma_header_read_write(s: Seq<u8>)
    ensures
        spec_header(s) matches Ok((header, rest)) ==> s.len() >= 128 && rest == s.skip(128)
            && header.magic_number == ASEPRITE_MAGIC_NUMBER && forall|i: int|
            #![trigger header_byte(header, i)]
            header_field_byte(i) ==> s[i] == header_byte(header, i),
{
    match spec_header(s) {
        Ok((header, rest)) => {
            lemma_depth_at(s);
            lemma_header_fields(s, header);
        },
        Err(_) => {},
    }
}

} // verus!
