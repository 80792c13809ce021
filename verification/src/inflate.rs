//! Decompression of the pixel data of compressed cels.

use vstd::prelude::*;

use crate::chunks::{aseprite_pixels, spec_pixels};
use crate::error::{AsepriteParseError, ParseFailure};
use crate::raw::{AsepritePixel, RawAsepriteHeader};

verus! {

/// How a decompression ended.
#[derive(Debug, PartialEq, Eq, Clone, Copy)]
pub enum InflateStatus {
    /// The input was used up or the output was full before the stream ended.
    Unfinished,
    /// No progress was possible: more input or more room was needed.
    Stalled,
    /// The stream ended and its checksum was right.
    StreamEnd,
    /// The input is no zlib stream.
    Invalid,
}

/// How a fresh zlib decompressor ends on an input when it is asked to
/// finish into a buffer, and what the buffer holds afterwards.
pub uninterp spec fn zlib_inflate(input: Seq<u8>, buffer: Seq<u8>) -> (InflateStatus, Seq<u8>);

/// Decompresses with `flate2::Decompress::decompress` on a decompressor that
/// `flate2::Decompress::new(true)` made, with `flate2::FlushDecompress::Finish`.
///
/// The call writes into the buffer and returns a status or an error; it
/// depends on the input and on the buffer alone and leaves the buffer's
/// length as it is. Of the outcome only the name [`zlib_inflate`] is stated.
#[verifier::external_body]
fn inflate_into(input: &[u8], buffer: &mut Vec<u8>) -> (status: InflateStatus)
    ensures
        status == zlib_inflate(input@, old(buffer)@).0,
        final(buffer)@ == zlib_inflate(input@, old(buffer)@).1,
        final(buffer)@.len() == old(buffer)@.len(),
{
    let mut decompressor = flate2::Decompress::new(true);
    match decompressor.decompress(input, buffer.as_mut_slice(), flate2::FlushDecompress::Finish) {
        Ok(flate2::Status::Ok) => InflateStatus::Unfinished,
        Ok(flate2::Status::BufError) => InflateStatus::Stalled,
        Ok(flate2::Status::StreamEnd) => InflateStatus::StreamEnd,
        Err(_) => InflateStatus::Invalid,
    }
}

/// A buffer of zeros.
pub open spec fn zeros(len: nat) -> Seq<u8> {
    Seq::new(len, |i: int| 0u8)
}

/// The pixels of a compressed cel, given how the decompression of its data
/// ended and what it wrote.
///
/// Only a stream that ended gives pixels: `count` of them, read from the
/// front of what was written. A stream that did not end is an error, and so
/// is one that is no zlib stream, and so is output that is too short for
/// the pixels.
pub open spec fn spec_inflated_pixels(
    status: InflateStatus,
    written: Seq<u8>,
    header: RawAsepriteHeader,
    count: nat,
) -> Result<Seq<AsepritePixel>, ParseFailure> {
    match status {
        InflateStatus::Invalid => Err(
            ParseFailure::Fatal(AsepriteParseError::InvalidCompressedData),
        ),
        InflateStatus::Unfinished => Err(
            ParseFailure::Fatal(AsepriteParseError::NotEnoughCompressedData),
        ),
        InflateStatus::Stalled => Err(
            ParseFailure::Fatal(AsepriteParseError::NotEnoughCompressedData),
        ),
        InflateStatus::StreamEnd => match spec_pixels(written, header, count) {
            Ok((pixels, _)) => Ok(pixels),
            Err(_) => Err(ParseFailure::Fatal(AsepriteParseError::InvalidCel)),
        },
    }
}

/// The pixels of a compressed cel, given how the decompression of its data
/// ended and what it wrote.
pub fn inflated_pixels(
    status: InflateStatus,
    written: &[u8],
    header: &RawAsepriteHeader,
    count: usize,
) -> (res: Result<Vec<AsepritePixel>, ParseFailure>)
    ensures
        match res {
            Ok(pixels) => spec_inflated_pixels(status, written@, *header, count as nat) == Ok::<
                Seq<AsepritePixel>,
                ParseFailure,
            >(pixels@) && pixels@.len() == count,
            Err(e) => spec_inflated_pixels(status, written@, *header, count as nat) == Err::<
                Seq<AsepritePixel>,
                ParseFailure,
            >(e),
        },
{
    match status {
        InflateStatus::Invalid => Err(
            ParseFailure::Fatal(AsepriteParseError::InvalidCompressedData),
        ),
        InflateStatus::Unfinished => Err(
            ParseFailure::Fatal(AsepriteParseError::NotEnoughCompressedData),
        ),
        InflateStatus::Stalled => Err(
            ParseFailure::Fatal(AsepriteParseError::NotEnoughCompressedData),
        ),
        InflateStatus::StreamEnd => match aseprite_pixels(written, header, count) {
            Ok((pixels, _)) => Ok(pixels),
            Err(_) => Err(ParseFailure::Fatal(AsepriteParseError::InvalidCel)),
        },
    }
}

/// The pixels of a compressed cel: `count` pixels out of a zeroed buffer of
/// `len` bytes into which the data was decompressed.
pub open spec fn spec_decompressed_pixels(
    data: Seq<u8>,
    header: RawAsepriteHeader,
    len: nat,
    count: nat,
) -> Result<Seq<AsepritePixel>, ParseFailure> {
    spec_inflated_pixels(
        zlib_inflate(data, zeros(len)).0,
        zlib_inflate(data, zeros(len)).1,
        header,
        count,
    )
}

/// Decompresses the data of a compressed cel into a zeroed buffer of `len`
/// bytes and reads `count` pixels from it.
pub fn decompressed_pixels(
    data: &[u8],
    header: &RawAsepriteHeader,
    len: usize,
    count: usize,
) -> (res: Result<Vec<AsepritePixel>, ParseFailure>)
    ensures
        match res {
            Ok(pixels) => spec_decompressed_pixels(data@, *header, len as nat, count as nat)
                == Ok::<Seq<AsepritePixel>, ParseFailure>(pixels@) && pixels@.len() == count,
            Err(e) => spec_decompressed_pixels(data@, *header, len as nat, count as nat) == Err::<
                Seq<AsepritePixel>,
                ParseFailure,
            >(e),
        },
{
    let mut pixel_data: Vec<u8> = vec![0u8; len];
    assert(pixel_data@ =~= zeros(len as nat));
    let status = inflate_into(data, &mut pixel_data);
    inflated_pixels(status, pixel_data.as_slice(), header, count)
}

} // verus!
