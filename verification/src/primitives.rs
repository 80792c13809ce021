//! Readers of little-endian numbers, byte runs and strings at the front of a
//! byte slice.
//!
//! Every parser of this crate takes the bytes that are left and returns what
//! it read together with the bytes that are left after it.

use vstd::prelude::*;
use vstd::slice::slice_subrange;
use vstd::utf8::{decode_utf8, valid_utf8};

use crate::error::{AsepriteParseError, ParseFailure, ReadErrorKind};

verus! {

/// The failure of a read for which the input is too short.
pub open spec fn eof_failure() -> ParseFailure {
    ParseFailure::Recoverable(AsepriteParseError::Generic { kind: ReadErrorKind::Eof })
}

/// The failure of a read that did not find the bytes that it expects.
pub open spec fn tag_failure() -> ParseFailure {
    ParseFailure::Recoverable(AsepriteParseError::Generic { kind: ReadErrorKind::Tag })
}

/// The failure of a read for which the input is too short.
pub fn eof() -> (failure: ParseFailure)
    ensures
        failure == eof_failure(),
{
    ParseFailure::Recoverable(AsepriteParseError::Generic { kind: ReadErrorKind::Eof })
}

/// The unsigned 16-bit number whose two bytes stand at an offset, low byte
/// first.
pub open spec fn u16_at(s: Seq<u8>, at: int) -> u16 {
    (s[at] + 256 * s[at + 1]) as u16
}

/// The unsigned 32-bit number whose four bytes stand at an offset, low byte
/// first.
pub open spec fn u32_at(s: Seq<u8>, at: int) -> u32 {
    (s[at] + 256 * s[at + 1] + 65536 * s[at + 2] + 16777216 * s[at + 3]) as u32
}

/// The signed 16-bit number whose two bytes stand at an offset, low byte
/// first, in two's complement.
pub open spec fn i16_at(s: Seq<u8>, at: int) -> i16 {
    if u16_at(s, at) >= 0x8000 {
        (u16_at(s, at) - 0x1_0000) as i16
    } else {
        u16_at(s, at) as i16
    }
}

/// The signed 32-bit number whose four bytes stand at an offset, low byte
/// first, in two's complement.
pub open spec fn i32_at(s: Seq<u8>, at: int) -> i32 {
    if u32_at(s, at) >= 0x8000_0000 {
        (u32_at(s, at) - 0x1_0000_0000) as i32
    } else {
        u32_at(s, at) as i32
    }
}

/// Reads the byte at an offset.
pub fn read_u8(input: &[u8], at: usize) -> (value: u8)
    requires
        at < input@.len(),
    ensures
        value == input@[at as int],
{
    input[at]
}

/// Reads the unsigned 16-bit number at an offset.
pub fn read_u16(input: &[u8], at: usize) -> (value: u16)
    requires
        at + 2 <= input@.len(),
    ensures
        value == u16_at(input@, at as int),
{
    input[at] as u16 + (input[at + 1] as u16) * 256
}

/// Reads the unsigned 32-bit number at an offset.
pub fn read_u32(input: &[u8], at: usize) -> (value: u32)
    requires
        at + 4 <= input@.len(),
    ensures
        value == u32_at(input@, at as int),
{
    input[at] as u32 + (input[at + 1] as u32) * 256 + (input[at + 2] as u32) * 65536 + (input[at
        + 3] as u32) * 16777216
}

/// Reads the signed 16-bit number at an offset.
pub fn read_i16(input: &[u8], at: usize) -> (value: i16)
    requires
        at + 2 <= input@.len(),
    ensures
        value == i16_at(input@, at as int),
{
    let unsigned = read_u16(input, at);
    if unsigned >= 0x8000 {
        (unsigned as i32 - 0x1_0000) as i16
    } else {
        unsigned as i16
    }
}

/// Reads the signed 32-bit number at an offset.
pub fn read_i32(input: &[u8], at: usize) -> (value: i32)
    requires
        at + 4 <= input@.len(),
    ensures
        value == i32_at(input@, at as int),
{
    let unsigned = read_u32(input, at);
    if unsigned >= 0x8000_0000 {
        (unsigned as i64 - 0x1_0000_0000) as i32
    } else {
        unsigned as i32
    }
}

/// The bytes of a slice from an offset on.
pub fn rest_from<'a>(input: &'a [u8], at: usize) -> (rest: &'a [u8])
    requires
        at <= input@.len(),
    ensures
        rest@ == input@.skip(at as int),
{
    let rest = slice_subrange(input, at, input.len());
    assert(rest@ =~= input@.skip(at as int));
    rest
}

/// What a run of bytes holds as a string: the characters that it encodes in
/// UTF-8, or nothing where it is no valid encoding.
pub open spec fn text_of(bytes: Seq<u8>) -> Option<Seq<char>> {
    if valid_utf8(bytes) {
        Some(decode_utf8(bytes))
    } else {
        None
    }
}

/// Decodes UTF-8 with `String::from_utf8`, which gives the string that the
/// bytes encode, or an error where they are no valid UTF-8.
#[verifier::external_body]
fn string_from_utf8(bytes: Vec<u8>) -> (text: Option<String>)
    ensures
        match text {
            Some(t) => text_of(bytes@) == Some(t@),
            None => text_of(bytes@) is None,
        },
{
    match String::from_utf8(bytes) {
        Ok(text) => Some(text),
        Err(_) => None,
    }
}

/// A string in the file: its length in bytes as an unsigned 16-bit number,
/// then that many bytes of UTF-8.
pub open spec fn spec_string(s: Seq<u8>) -> Result<(Seq<char>, Seq<u8>), ParseFailure> {
    if s.len() < 2 || s.len() < 2 + u16_at(s, 0) {
        Err(eof_failure())
    } else {
        match text_of(s.subrange(2, 2 + u16_at(s, 0))) {
            Some(text) => Ok((text, s.skip(2 + u16_at(s, 0)))),
            None => Err(ParseFailure::Fatal(AsepriteParseError::InvalidUtf8)),
        }
    }
}

/// Reads a string.
pub fn aseprite_string<'a>(input: &'a [u8]) -> (res: Result<(String, &'a [u8]), ParseFailure>)
    ensures
        match res {
            Ok((text, rest)) => spec_string(input@) == Ok::<(Seq<char>, Seq<u8>), ParseFailure>(
                (text@, rest@),
            ),
            Err(e) => spec_string(input@) == Err::<(Seq<char>, Seq<u8>), ParseFailure>(e),
        },
{
    if input.len() < 2 {
        return Err(eof());
    }
    let name_len = read_u16(input, 0) as usize;
    if input.len() - 2 < name_len {
        return Err(eof());
    }
    let name_bytes = vstd::slice::slice_to_vec(slice_subrange(input, 2, 2 + name_len));
    match string_from_utf8(name_bytes) {
        Some(text) => Ok((text, rest_from(input, 2 + name_len))),
        None => Err(ParseFailure::Fatal(AsepriteParseError::InvalidUtf8)),
    }
}

} // verus!
