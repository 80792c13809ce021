//! Error types of the decoder and of the document model.

use vstd::prelude::*;

verus! {

/// Why a low-level read failed.
#[derive(Debug, Clone, Copy, PartialEq, Eq)]
pub enum ReadErrorKind {
    /// The input ended before the value was complete, or bytes were left
    /// over where all of them had to be consumed.
    Eof,
    /// A fixed byte pattern (a magic number) did not match.
    Tag,
}

/// Errors that can occur during parsing.
///
/// The last eight variants name the kind of chunk in which the inner error
/// occurred.
#[derive(Debug, PartialEq, Eq)]
pub enum AsepriteParseError {
    /// Color depth was invalid
    InvalidColorDepth(u16),
    /// An embedded string was not utf-8
    InvalidUtf8,
    /// An invalid layer type was found
    InvalidLayerType(u16),
    /// An invalid blend mode was found
    InvalidBlendMode(u16),
    /// The pixel data could not be decompressed
    InvalidCompressedData,
    /// There was not enough compressed data
    NotEnoughCompressedData,
    /// An invalid cel was found while decompressing
    InvalidCel,
    /// An invalid cel type was found
    InvalidCelType(u16),
    /// An invalid animation direction was found
    InvalidAnimationDirection(u8),
    /// A low-level read failed
    Generic {
        /// What went wrong
        kind: ReadErrorKind,
    },
    /// Could not parse a layer chunk
    InvalidLayerChunk(Box<AsepriteParseError>),
    /// Could not parse a cel chunk
    InvalidCelChunk(Box<AsepriteParseError>),
    /// Could not parse a cel extra chunk
    InvalidCelExtraChunk(Box<AsepriteParseError>),
    /// Could not parse a tags chunk
    InvalidTagsChunk(Box<AsepriteParseError>),
    /// Could not parse a palette chunk
    InvalidPaletteChunk(Box<AsepriteParseError>),
    /// Could not parse a user data chunk
    InvalidUserDataChunk(Box<AsepriteParseError>),
    /// Could not parse a slice chunk
    InvalidSliceChunk(Box<AsepriteParseError>),
    /// Could not parse a color profile chunk
    InvalidColorProfileChunk(Box<AsepriteParseError>),
}

/// A failed parse, with its severity.
///
/// A repetition that meets a recoverable error stops and keeps what it has
/// read so far; a fatal error aborts the whole decoding.
#[derive(Debug, PartialEq, Eq)]
pub enum ParseFailure {
    /// The parser does not apply here; an enclosing repetition may end.
    Recoverable(AsepriteParseError),
    /// The input is invalid beyond repair.
    Fatal(AsepriteParseError),
}

impl ParseFailure {
    /// The error inside, whatever the severity.
    pub open spec fn spec_error(self) -> AsepriteParseError {
        match self {
            ParseFailure::Recoverable(e) => e,
            ParseFailure::Fatal(e) => e,
        }
    }

    /// The error inside, whatever the severity.
    pub fn into_error(self) -> (e: AsepriteParseError)
        ensures
            e == self.spec_error(),
    {
        match self {
            ParseFailure::Recoverable(e) => e,
            ParseFailure::Fatal(e) => e,
        }
    }
}

/// An invalid configuration exists in the file.
///
/// This should not happen with files that have not been manually edited.
#[derive(Debug, Clone, Copy, PartialEq, Eq)]
#[non_exhaustive]
pub enum AsepriteInvalidError {
    /// An invalid layer was specified
    InvalidLayer(usize),
    /// An invalid frame was specified
    InvalidFrame(usize),
    /// An invalid palette index was specified as a color
    InvalidPaletteIndex(usize),
}

/// Errors that can happen while decoding a file or rendering a document.
#[derive(Debug, PartialEq, Eq)]
#[non_exhaustive]
pub enum AsepriteError {
    /// An error occured during parsing, see [`AsepriteParseError`] for
    /// possible causes. This cannot be recovered from.
    Parse(AsepriteParseError),
    /// An invalid configuration was found while decoding
    InvalidConfiguration(AsepriteInvalidError),
}

} // verus!
