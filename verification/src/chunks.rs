//! The parsers of the chunks of a frame.

use vstd::prelude::*;

use crate::error::{AsepriteParseError, ParseFailure};
use crate::inflate::{decompressed_pixels, spec_decompressed_pixels};
use crate::primitives::{
    aseprite_string,
    eof,
    eof_failure,
    i16_at,
    i32_at,
    read_i16,
    read_i32,
    read_u16,
    read_u32,
    read_u8,
    rest_from,
    spec_string,
    u16_at,
    u32_at,
};
use crate::raw::{
    views,
    AsepriteAnimationDirection,
    AsepriteBlendMode,
    AsepriteColor,
    AsepriteColorDepth,
    AsepriteFixed,
    AsepriteLayerType,
    AsepriteNinePatchInfo,
    AsepritePivot,
    AsepritePixel,
    RawAsepriteCel,
    RawAsepriteCelView,
    RawAsepriteChunk,
    RawAsepriteChunkView,
    RawAsepriteHeader,
    RawAsepriteIccProfile,
    RawAsepritePaletteEntry,
    RawAsepritePaletteEntryView,
    RawAsepriteSlice,
    RawAsepriteTag,
    RawAsepriteTagView,
    RawAsepriteUserData,
    RawAsepriteUserDataView,
};

verus! {

/// The color whose four channels stand at an offset.
pub open spec fn color_at(s: Seq<u8>, at: int) -> AsepriteColor {
    AsepriteColor { red: s[at], green: s[at + 1], blue: s[at + 2], alpha: s[at + 3] }
}

/// A color: four bytes, red, green, blue and alpha.
pub open spec fn spec_color(s: Seq<u8>) -> Result<(AsepriteColor, Seq<u8>), ParseFailure> {
    if s.len() < 4 {
        Err(eof_failure())
    } else {
        Ok((color_at(s, 0), s.skip(4)))
    }
}

/// Reads a color.
pub fn aseprite_color<'a>(input: &'a [u8]) -> (res: Result<(AsepriteColor, &'a [u8]), ParseFailure>)
    ensures
        match res {
            Ok((color, rest)) => spec_color(input@) == Ok::<(AsepriteColor, Seq<u8>), ParseFailure>(
                (color, rest@),
            ),
            Err(e) => spec_color(input@) == Err::<(AsepriteColor, Seq<u8>), ParseFailure>(e),
        },
{
    if input.len() < 4 {
        return Err(eof());
    }
    Ok(
        (
            AsepriteColor { red: input[0], green: input[1], blue: input[2], alpha: input[3] },
            rest_from(input, 4),
        ),
    )
}

/// User data: a 32-bit word of flags, then a string where bit 0 of the
/// flags is set, then a color where bit 1 is.
pub open spec fn spec_user_data(s: Seq<u8>) -> Result<
    (RawAsepriteUserDataView, Seq<u8>),
    ParseFailure,
> {
    if s.len() < 4 {
        Err(eof_failure())
    } else if u32_at(s, 0) & 0x1 != 0 {
        match spec_string(s.skip(4)) {
            Ok((text, rest)) => spec_user_data_color(u32_at(s, 0), Some(text), rest),
            Err(e) => Err(e),
        }
    } else {
        spec_user_data_color(u32_at(s, 0), None, s.skip(4))
    }
}

/// The end of user data: a color where bit 1 of the flags is set.
pub open spec fn spec_user_data_color(kind: u32, text: Option<Seq<char>>, s: Seq<u8>) -> Result<
    (RawAsepriteUserDataView, Seq<u8>),
    ParseFailure,
> {
    if kind & 0x2 != 0 {
        match spec_color(s) {
            Ok((color, rest)) => Ok((RawAsepriteUserDataView { text, color: Some(color) }, rest)),
            Err(e) => Err(e),
        }
    } else {
        Ok((RawAsepriteUserDataView { text, color: None }, s))
    }
}

/// Reads user data.
pub fn aseprite_user_data<'a>(input: &'a [u8]) -> (res: Result<
    (RawAsepriteUserData, &'a [u8]),
    ParseFailure,
>)
    ensures
        match res {
            Ok((data, rest)) => spec_user_data(input@) == Ok::<
                (RawAsepriteUserDataView, Seq<u8>),
                ParseFailure,
            >((data@, rest@)),
            Err(e) => spec_user_data(input@) == Err::<
                (RawAsepriteUserDataView, Seq<u8>),
                ParseFailure,
            >(e),
        },
{
    if input.len() < 4 {
        return Err(eof());
    }
    let kind = read_u32(input, 0);
    let input = rest_from(input, 4);
    let (text, input) = if kind & 0x1 != 0 {
        match aseprite_string(input) {
            Ok((text, rest)) => (Some(text), rest),
            Err(e) => {
                return Err(e);
            },
        }
    } else {
        (None, input)
    };
    let (color, input) = if kind & 0x2 != 0 {
        match aseprite_color(input) {
            Ok((color, rest)) => (Some(color), rest),
            Err(e) => {
                return Err(e);
            },
        }
    } else {
        (None, input)
    };
    Ok((RawAsepriteUserData { text, color }, input))
}

/// The layer type that a code stands for.
pub open spec fn layer_type_of(code: u16) -> Option<AsepriteLayerType> {
    if code == 0 {
        Some(AsepriteLayerType::Normal)
    } else if code == 1 {
        Some(AsepriteLayerType::Group)
    } else {
        None
    }
}

/// A layer type: a 16-bit code, 0 or 1.
pub open spec fn spec_layer_type(s: Seq<u8>) -> Result<(AsepriteLayerType, Seq<u8>), ParseFailure> {
    if s.len() < 2 {
        Err(eof_failure())
    } else {
        match layer_type_of(u16_at(s, 0)) {
            Some(layer_type) => Ok((layer_type, s.skip(2))),
            None => Err(ParseFailure::Fatal(AsepriteParseError::InvalidLayerType(u16_at(s, 0)))),
        }
    }
}

/// Reads a layer type.
pub fn aseprite_layer_type<'a>(input: &'a [u8]) -> (res: Result<
    (AsepriteLayerType, &'a [u8]),
    ParseFailure,
>)
    ensures
        match res {
            Ok((layer_type, rest)) => spec_layer_type(input@) == Ok::<
                (AsepriteLayerType, Seq<u8>),
                ParseFailure,
            >((layer_type, rest@)),
            Err(e) => spec_layer_type(input@) == Err::<(AsepriteLayerType, Seq<u8>), ParseFailure>(
                e,
            ),
        },
{
    if input.len() < 2 {
        return Err(eof());
    }
    let layer_type = read_u16(input, 0);
    let input = rest_from(input, 2);
    if layer_type == 0 {
        Ok((AsepriteLayerType::Normal, input))
    } else if layer_type == 1 {
        Ok((AsepriteLayerType::Group, input))
    } else {
        Err(ParseFailure::Fatal(AsepriteParseError::InvalidLayerType(layer_type)))
    }
}

/// The blend mode that a code stands for.
pub open spec fn blend_mode_of(code: u16) -> Option<AsepriteBlendMode> {
    if code == 0 {
        Some(AsepriteBlendMode::Normal)
    } else if code == 1 {
        Some(AsepriteBlendMode::Multiply)
    } else if code == 2 {
        Some(AsepriteBlendMode::Screen)
    } else if code == 3 {
        Some(AsepriteBlendMode::Overlay)
    } else if code == 4 {
        Some(AsepriteBlendMode::Darken)
    } else if code == 5 {
        Some(AsepriteBlendMode::Lighten)
    } else if code == 6 {
        Some(AsepriteBlendMode::ColorDodge)
    } else if code == 7 {
        Some(AsepriteBlendMode::ColorBurn)
    } else if code == 8 {
        Some(AsepriteBlendMode::HardLight)
    } else if code == 9 {
        Some(AsepriteBlendMode::SoftLight)
    } else if code == 10 {
        Some(AsepriteBlendMode::Difference)
    } else if code == 11 {
        Some(AsepriteBlendMode::Exclusion)
    } else if code == 12 {
        Some(AsepriteBlendMode::Hue)
    } else if code == 13 {
        Some(AsepriteBlendMode::Saturation)
    } else if code == 14 {
        Some(AsepriteBlendMode::Color)
    } else if code == 15 {
        Some(AsepriteBlendMode::Luminosity)
    } else if code == 16 {
        Some(AsepriteBlendMode::Addition)
    } else if code == 17 {
        Some(AsepriteBlendMode::Subtract)
    } else if code == 18 {
        Some(AsepriteBlendMode::Divide)
    } else {
        None
    }
}

/// A blend mode: a 16-bit code from 0 to 18.
pub open spec fn spec_blend_mode(s: Seq<u8>) -> Result<(AsepriteBlendMode, Seq<u8>), ParseFailure> {
    if s.len() < 2 {
        Err(eof_failure())
    } else {
        match blend_mode_of(u16_at(s, 0)) {
            Some(blend_mode) => Ok((blend_mode, s.skip(2))),
            None => Err(ParseFailure::Fatal(AsepriteParseError::InvalidBlendMode(u16_at(s, 0)))),
        }
    }
}

/// Reads a blend mode.
pub fn aseprite_blend_mode<'a>(input: &'a [u8]) -> (res: Result<
    (AsepriteBlendMode, &'a [u8]),
    ParseFailure,
>)
    ensures
        match res {
            Ok((blend_mode, rest)) => spec_blend_mode(input@) == Ok::<
                (AsepriteBlendMode, Seq<u8>),
                ParseFailure,
            >((blend_mode, rest@)),
            Err(e) => spec_blend_mode(input@) == Err::<(AsepriteBlendMode, Seq<u8>), ParseFailure>(
                e,
            ),
        },
{
    if input.len() < 2 {
        return Err(eof());
    }
    let blend_mode = read_u16(input, 0);
    let input = rest_from(input, 2);
    let mode = match blend_mode {
        0 => AsepriteBlendMode::Normal,
        1 => AsepriteBlendMode::Multiply,
        2 => AsepriteBlendMode::Screen,
        3 => AsepriteBlendMode::Overlay,
        4 => AsepriteBlendMode::Darken,
        5 => AsepriteBlendMode::Lighten,
        6 => AsepriteBlendMode::ColorDodge,
        7 => AsepriteBlendMode::ColorBurn,
        8 => AsepriteBlendMode::HardLight,
        9 => AsepriteBlendMode::SoftLight,
        10 => AsepriteBlendMode::Difference,
        11 => AsepriteBlendMode::Exclusion,
        12 => AsepriteBlendMode::Hue,
        13 => AsepriteBlendMode::Saturation,
        14 => AsepriteBlendMode::Color,
        15 => AsepriteBlendMode::Luminosity,
        16 => AsepriteBlendMode::Addition,
        17 => AsepriteBlendMode::Subtract,
        18 => AsepriteBlendMode::Divide,
        unknown => {
            return Err(ParseFailure::Fatal(AsepriteParseError::InvalidBlendMode(unknown)));
        },
    };
    Ok((mode, input))
}

/// The number of bytes that one pixel takes where pixels are read: four for
/// a color, two 16-bit numbers for a grayscale pixel, one for an index.
pub open spec fn pixel_size(depth: AsepriteColorDepth) -> nat {
    match depth {
        AsepriteColorDepth::RGBA => 4,
        AsepriteColorDepth::Grayscale => 4,
        AsepriteColorDepth::Indexed => 1,
    }
}

/// The pixel whose bytes stand at an offset.
pub open spec fn pixel_at(s: Seq<u8>, at: int, depth: AsepriteColorDepth) -> AsepritePixel {
    match depth {
        AsepriteColorDepth::RGBA => AsepritePixel::RGBA(color_at(s, at)),
        AsepriteColorDepth::Grayscale => AsepritePixel::Grayscale {
            intensity: u16_at(s, at),
            alpha: u16_at(s, at + 2),
        },
        AsepriteColorDepth::Indexed => AsepritePixel::Indexed(s[at]),
    }
}

/// A pixel of the color depth that the header declares.
pub open spec fn spec_pixel(s: Seq<u8>, header: RawAsepriteHeader) -> Result<
    (AsepritePixel, Seq<u8>),
    ParseFailure,
> {
    if s.len() < pixel_size(header.color_depth) {
        Err(eof_failure())
    } else {
        Ok((pixel_at(s, 0, header.color_depth), s.skip(pixel_size(header.color_depth) as int)))
    }
}

/// Reads a pixel.
pub fn aseprite_pixel<'a>(input: &'a [u8], header: &RawAsepriteHeader) -> (res: Result<
    (AsepritePixel, &'a [u8]),
    ParseFailure,
>)
    ensures
        match res {
            Ok((pixel, rest)) => spec_pixel(input@, *header) == Ok::<
                (AsepritePixel, Seq<u8>),
                ParseFailure,
            >((pixel, rest@)),
            Err(e) => spec_pixel(input@, *header) == Err::<(AsepritePixel, Seq<u8>), ParseFailure>(
                e,
            ),
        },
{
    match header.color_depth {
        AsepriteColorDepth::RGBA => {
            if input.len() < 4 {
                return Err(eof());
            }
            Ok((pixel_from(input, 0, header), rest_from(input, 4)))
        },
        AsepriteColorDepth::Grayscale => {
            if input.len() < 4 {
                return Err(eof());
            }
            Ok((pixel_from(input, 0, header), rest_from(input, 4)))
        },
        AsepriteColorDepth::Indexed => {
            if input.len() < 1 {
                return Err(eof());
            }
            Ok((pixel_from(input, 0, header), rest_from(input, 1)))
        },
    }
}

/// The pixel whose bytes stand at an offset.
fn pixel_from(input: &[u8], at: usize, header: &RawAsepriteHeader) -> (pixel: AsepritePixel)
    requires
        at + pixel_size(header.color_depth) <= input@.len(),
    ensures
        pixel == pixel_at(input@, at as int, header.color_depth),
{
    match header.color_depth {
        AsepriteColorDepth::RGBA => AsepritePixel::RGBA(
            AsepriteColor {
                red: input[at],
                green: input[at + 1],
                blue: input[at + 2],
                alpha: input[at + 3],
            },
        ),
        AsepriteColorDepth::Grayscale => AsepritePixel::Grayscale {
            intensity: read_u16(input, at),
            alpha: read_u16(input, at + 2),
        },
        AsepriteColorDepth::Indexed => AsepritePixel::Indexed(input[at]),
    }
}

/// A run of `amt` pixels, one after the other.
pub open spec fn spec_pixels(s: Seq<u8>, header: RawAsepriteHeader, amt: nat) -> Result<
    (Seq<AsepritePixel>, Seq<u8>),
    ParseFailure,
> {
    if s.len() < amt * pixel_size(header.color_depth) {
        Err(eof_failure())
    } else {
        Ok(
            (
                Seq::new(
                    amt,
                    |i: int| pixel_at(s, i * pixel_size(header.color_depth), header.color_depth),
                ),
                s.skip((amt * pixel_size(header.color_depth)) as int),
            ),
        )
    }
}

/// Reads a run of `amt` pixels.
pub fn aseprite_pixels<'a>(input: &'a [u8], header: &RawAsepriteHeader, amt: usize) -> (res: Result<
    (Vec<AsepritePixel>, &'a [u8]),
    ParseFailure,
>)
    ensures
        match res {
            Ok((pixels, rest)) => spec_pixels(input@, *header, amt as nat) == Ok::<
                (Seq<AsepritePixel>, Seq<u8>),
                ParseFailure,
            >((pixels@, rest@)) && pixels@.len() == amt,
            Err(e) => spec_pixels(input@, *header, amt as nat) == Err::<
                (Seq<AsepritePixel>, Seq<u8>),
                ParseFailure,
            >(e),
        },
{
    let size: usize = match header.color_depth {
        AsepriteColorDepth::RGBA => 4,
        AsepriteColorDepth::Grayscale => 4,
        AsepriteColorDepth::Indexed => 1,
    };
    let len = input.len();
    let total = match amt.checked_mul(size) {
        Some(total) => total,
        None => {
            return Err(eof());
        },
    };
    if len < total {
        return Err(eof());
    }
    let mut pixels: Vec<AsepritePixel> = Vec::new();
    let mut i: usize = 0;
    while i < amt
        invariant
            i <= amt,
            size == pixel_size(header.color_depth),
            total == amt * size,
            total <= input@.len(),
            pixels@.len() == i,
            forall|k: int|
                0 <= k < i ==> #[trigger] pixels@[k] == pixel_at(
                    input@,
                    k * size,
                    header.color_depth,
                ),
        decreases amt - i,
    {
        assert(i * size + size <= amt * size) by (nonlinear_arith)
            requires
                i < amt,
                size >= 0,
        ;
        pixels.push(pixel_from(input, i * size, header));
        i += 1;
    }
    assert(pixels@ =~= spec_pixels(input@, *header, amt as nat).unwrap().0);
    Ok((pixels, rest_from(input, total)))
}

/// The content of a cel of the given type.
///
/// A raw cel (type 0) is its width, its height and a pixel for each
/// position. A linked cel (type 1) is the frame that it links to. A
/// compressed cel (type 2) is its width, its height and, to the end of the
/// input, a zlib stream; the stream is decompressed into as many bytes as
/// the color depth gives for the grid, and the pixels are read from them.
/// A grid whose bytes cannot be counted in a `usize` is an invalid cel.
pub open spec fn spec_cel(s: Seq<u8>, header: RawAsepriteHeader, cel_type: u16) -> Result<
    (RawAsepriteCelView, Seq<u8>),
    ParseFailure,
> {
    if cel_type == 0 {
        if s.len() < 4 {
            Err(eof_failure())
        } else {
            match spec_pixels(s.skip(4), header, (u16_at(s, 0) * u16_at(s, 2)) as nat) {
                Ok((pixels, rest)) => Ok(
                    (
                        RawAsepriteCelView::Raw {
                            width: u16_at(s, 0),
                            height: u16_at(s, 2),
                            pixels,
                        },
                        rest,
                    ),
                ),
                Err(e) => Err(e),
            }
        }
    } else if cel_type == 1 {
        if s.len() < 2 {
            Err(eof_failure())
        } else {
            Ok((RawAsepriteCelView::Linked { frame_position: u16_at(s, 0) }, s.skip(2)))
        }
    } else if cel_type == 2 {
        if s.len() < 4 {
            Err(eof_failure())
        } else if u16_at(s, 0) * u16_at(s, 2) * header.color_depth.spec_bytes_per_pixel()
            > usize::MAX {
            Err(ParseFailure::Fatal(AsepriteParseError::InvalidCel))
        } else {
            match spec_decompressed_pixels(
                s.skip(4),
                header,
                (u16_at(s, 0) * u16_at(s, 2) * header.color_depth.spec_bytes_per_pixel()) as nat,
                (u16_at(s, 0) * u16_at(s, 2)) as nat,
            ) {
                Ok(pixels) => Ok(
                    (
                        RawAsepriteCelView::Compressed {
                            width: u16_at(s, 0),
                            height: u16_at(s, 2),
                            pixels,
                        },
                        Seq::empty(),
                    ),
                ),
                Err(e) => Err(e),
            }
        }
    } else {
        Err(ParseFailure::Fatal(AsepriteParseError::InvalidCelType(cel_type)))
    }
}

/// Whether the decompression of the stream of a compressed cel stops before
/// the end of the stream, for want of input or of room.
pub open spec fn stream_stops_early(s: Seq<u8>, header: RawAsepriteHeader) -> bool {
    let status = crate::inflate::zlib_inflate(
        s.skip(4),
        crate::inflate::zeros(
            (u16_at(s, 0) * u16_at(s, 2) * header.color_depth.spec_bytes_per_pixel()) as nat,
        ),
    ).0;
    status is Unfinished || status is Stalled
}

/// A compressed cel whose stream does not end is an error: where the
/// decompression stops early, there is not enough compressed data, and no
/// pixels come out.
pub proof fn lemma_unfinished_stream_is_an_error(s: Seq<u8>, header: RawAsepriteHeader)
    ensures
        s.len() >= 4 && u16_at(s, 0) * u16_at(s, 2) * header.color_depth.spec_bytes_per_pixel()
            <= usize::MAX && stream_stops_early(s, header) ==> spec_cel(s, header, 2) == Err::<
            (RawAsepriteCelView, Seq<u8>),
            ParseFailure,
        >(ParseFailure::Fatal(AsepriteParseError::NotEnoughCompressedData)),
{
}

/// A cel that is read carries a pixel for each position of its grid.
pub proof fn lemma_cel_is_well_formed(s: Seq<u8>, header: RawAsepriteHeader, cel_type: u16)
    ensures
        spec_cel(s, header, cel_type) matches Ok((cel, _)) ==> cel.well_formed(),
{
}

/// Reads the content of a cel of the given type.
pub fn aseprite_cel<'a>(input: &'a [u8], header: &RawAsepriteHeader, cel_type: u16) -> (res: Result<
    (RawAsepriteCel, &'a [u8]),
    ParseFailure,
>)
    ensures
        match res {
            Ok((cel, rest)) => spec_cel(input@, *header, cel_type) == Ok::<
                (RawAsepriteCelView, Seq<u8>),
                ParseFailure,
            >((cel@, rest@)) && cel@.well_formed(),
            Err(e) => spec_cel(input@, *header, cel_type) == Err::<
                (RawAsepriteCelView, Seq<u8>),
                ParseFailure,
            >(e),
        },
{
    match cel_type {
        0 => {
            if input.len() < 4 {
                return Err(eof());
            }
            let width = read_u16(input, 0);
            let height = read_u16(input, 2);
            assert(0 <= width * height <= 0xffff * 0xffff) by (nonlinear_arith)
                requires
                    0 <= width <= 0xffff,
                    0 <= height <= 0xffff,
            ;
            let count = (width as u32 * height as u32) as usize;
            match aseprite_pixels(rest_from(input, 4), header, count) {
                Ok((pixels, rest)) => Ok((RawAsepriteCel::Raw { width, height, pixels }, rest)),
                Err(e) => Err(e),
            }
        },
        1 => {
            if input.len() < 2 {
                return Err(eof());
            }
            let frame_position = read_u16(input, 0);
            Ok((RawAsepriteCel::Linked { frame_position }, rest_from(input, 2)))
        },
        2 => {
            if input.len() < 4 {
                return Err(eof());
            }
            let width = read_u16(input, 0);
            let height = read_u16(input, 2);
            assert(0 <= width * height <= 0xffff * 0xffff) by (nonlinear_arith)
                requires
                    0 <= width <= 0xffff,
                    0 <= height <= 0xffff,
            ;
            let count: u64 = width as u64 * height as u64;
            let bytes: u64 = count * (header.color_depth.bytes_per_pixel() as u64);
            assert(bytes == width * height * header.color_depth.spec_bytes_per_pixel())
                by (nonlinear_arith)
                requires
                    count == width * height,
                    bytes == count * header.color_depth.spec_bytes_per_pixel(),
            ;
            if bytes > usize::MAX as u64 {
                return Err(ParseFailure::Fatal(AsepriteParseError::InvalidCel));
            }
            let data = rest_from(input, 4);
            match decompressed_pixels(data, header, bytes as usize, count as usize) {
                Ok(pixels) => {
                    let rest = rest_from(input, input.len());
                    assert(rest@ =~= Seq::<u8>::empty());
                    Ok((RawAsepriteCel::Compressed { width, height, pixels }, rest))
                },
                Err(e) => Err(e),
            }
        },
        unknown => Err(ParseFailure::Fatal(AsepriteParseError::InvalidCelType(unknown))),
    }
}


/// The animation direction that a code stands for.
pub open spec fn direction_of(code: u8) -> Option<AsepriteAnimationDirection> {
    if code == 0 {
        Some(AsepriteAnimationDirection::Forward)
    } else if code == 1 {
        Some(AsepriteAnimationDirection::Reverse)
    } else if code == 2 {
        Some(AsepriteAnimationDirection::PingPong)
    } else {
        None
    }
}

/// An animation direction: a code of one byte, 0, 1 or 2.
pub open spec fn spec_anim_direction(s: Seq<u8>) -> Result<
    (AsepriteAnimationDirection, Seq<u8>),
    ParseFailure,
> {
    if s.len() < 1 {
        Err(eof_failure())
    } else {
        match direction_of(s[0]) {
            Some(direction) => Ok((direction, s.skip(1))),
            None => Err(ParseFailure::Fatal(AsepriteParseError::InvalidAnimationDirection(s[0]))),
        }
    }
}

/// Reads an animation direction.
pub fn aseprite_anim_direction<'a>(input: &'a [u8]) -> (res: Result<
    (AsepriteAnimationDirection, &'a [u8]),
    ParseFailure,
>)
    ensures
        match res {
            Ok((direction, rest)) => spec_anim_direction(input@) == Ok::<
                (AsepriteAnimationDirection, Seq<u8>),
                ParseFailure,
            >((direction, rest@)),
            Err(e) => spec_anim_direction(input@) == Err::<
                (AsepriteAnimationDirection, Seq<u8>),
                ParseFailure,
            >(e),
        },
{
    if input.len() < 1 {
        return Err(eof());
    }
    let dir = read_u8(input, 0);
    let input = rest_from(input, 1);
    if dir == 0 {
        Ok((AsepriteAnimationDirection::Forward, input))
    } else if dir == 1 {
        Ok((AsepriteAnimationDirection::Reverse, input))
    } else if dir == 2 {
        Ok((AsepriteAnimationDirection::PingPong, input))
    } else {
        Err(ParseFailure::Fatal(AsepriteParseError::InvalidAnimationDirection(dir)))
    }
}

/// A tag: its first and its last frame as 16-bit numbers, its direction,
/// twelve bytes that are passed over, and its name.
pub open spec fn spec_tag(s: Seq<u8>) -> Result<(RawAsepriteTagView, Seq<u8>), ParseFailure> {
    if s.len() < 4 {
        Err(eof_failure())
    } else {
        match spec_anim_direction(s.skip(4)) {
            Ok((anim_direction, _)) => if s.len() < 17 {
                Err(eof_failure())
            } else {
                match spec_string(s.skip(17)) {
                    Ok((name, rest)) => Ok(
                        (
                            RawAsepriteTagView {
                                from: u16_at(s, 0),
                                to: u16_at(s, 2),
                                anim_direction,
                                name,
                            },
                            rest,
                        ),
                    ),
                    Err(e) => Err(e),
                }
            },
            Err(e) => Err(e),
        }
    }
}

/// Reads a tag.
pub fn aseprite_tag<'a>(input: &'a [u8]) -> (res: Result<(RawAsepriteTag, &'a [u8]), ParseFailure>)
    ensures
        match res {
            Ok((tag, rest)) => spec_tag(input@) == Ok::<(RawAsepriteTagView, Seq<u8>), ParseFailure>(
                (tag@, rest@),
            ),
            Err(e) => spec_tag(input@) == Err::<(RawAsepriteTagView, Seq<u8>), ParseFailure>(e),
        },
{
    if input.len() < 4 {
        return Err(eof());
    }
    let from = read_u16(input, 0);
    let to = read_u16(input, 2);
    let anim_direction = match aseprite_anim_direction(rest_from(input, 4)) {
        Ok((direction, _)) => direction,
        Err(e) => {
            return Err(e);
        },
    };
    if input.len() < 17 {
        return Err(eof());
    }
    match aseprite_string(rest_from(input, 17)) {
        Ok((name, rest)) => Ok((RawAsepriteTag { from, to, anim_direction, name }, rest)),
        Err(e) => Err(e),
    }
}

/// A run of `tag_count` tags, one after the other. The first tag that
/// cannot be read ends the run with its failure.
pub open spec fn spec_tags(s: Seq<u8>, tag_count: nat) -> Result<
    (Seq<RawAsepriteTagView>, Seq<u8>),
    ParseFailure,
>
    decreases tag_count,
{
    if tag_count == 0 {
        Ok((Seq::empty(), s))
    } else {
        match spec_tags(s, (tag_count - 1) as nat) {
            Ok((tags, rest)) => match spec_tag(rest) {
                Ok((tag, after)) => Ok((tags.push(tag), after)),
                Err(e) => Err(e),
            },
            Err(e) => Err(e),
        }
    }
}

/// Once a tag has failed, the tags after it change nothing.
pub proof fn lemma_tags_failure_stays(s: Seq<u8>, failed: nat, tag_count: nat)
    requires
        failed <= tag_count,
        spec_tags(s, failed) is Err,
    ensures
        spec_tags(s, tag_count) == spec_tags(s, failed),
    decreases tag_count,
{
    if failed < tag_count {
        lemma_tags_failure_stays(s, failed, (tag_count - 1) as nat);
    }
}

/// Reads a run of tags.
pub fn tags<'a>(input: &'a [u8], tag_count: u16) -> (res: Result<
    (Vec<RawAsepriteTag>, &'a [u8]),
    ParseFailure,
>)
    ensures
        match res {
            Ok((tags, rest)) => spec_tags(input@, tag_count as nat) == Ok::<
                (Seq<RawAsepriteTagView>, Seq<u8>),
                ParseFailure,
            >((views(tags@), rest@)),
            Err(e) => spec_tags(input@, tag_count as nat) == Err::<
                (Seq<RawAsepriteTagView>, Seq<u8>),
                ParseFailure,
            >(e),
        },
{
    let mut tags: Vec<RawAsepriteTag> = Vec::new();
    let mut rest = input;
    let mut i: u16 = 0;
    assert(views(tags@) =~= Seq::<RawAsepriteTagView>::empty());
    while i < tag_count
        invariant
            i <= tag_count,
            spec_tags(input@, i as nat) == Ok::<(Seq<RawAsepriteTagView>, Seq<u8>), ParseFailure>(
                (views(tags@), rest@),
            ),
        decreases tag_count - i,
    {
        let ghost before = views(tags@);
        match aseprite_tag(rest) {
            Ok((tag, after)) => {
                tags.push(tag);
                rest = after;
                assert(views(tags@) =~= before.push(tag@));
            },
            Err(e) => {
                proof {
                    lemma_tags_failure_stays(input@, (i + 1) as nat, tag_count as nat);
                }
                return Err(e);
            },
        }
        i += 1;
    }
    Ok((tags, rest))
}

/// The tags chunk: the number of tags as a 16-bit number, eight bytes that
/// are passed over, and the tags.
pub open spec fn spec_tags_chunk(s: Seq<u8>) -> Result<
    (RawAsepriteChunkView, Seq<u8>),
    ParseFailure,
> {
    if s.len() < 10 {
        Err(eof_failure())
    } else {
        match spec_tags(s.skip(10), u16_at(s, 0) as nat) {
            Ok((tags, rest)) => Ok((RawAsepriteChunkView::Tags { tags }, rest)),
            Err(e) => Err(e),
        }
    }
}

/// Reads the tags chunk.
pub fn tags_chunk<'a>(input: &'a [u8]) -> (res: Result<(RawAsepriteChunk, &'a [u8]), ParseFailure>)
    ensures
        match res {
            Ok((chunk, rest)) => spec_tags_chunk(input@) == Ok::<
                (RawAsepriteChunkView, Seq<u8>),
                ParseFailure,
            >((chunk@, rest@)),
            Err(e) => spec_tags_chunk(input@) == Err::<
                (RawAsepriteChunkView, Seq<u8>),
                ParseFailure,
            >(e),
        },
{
    if input.len() < 10 {
        return Err(eof());
    }
    let tag_count = read_u16(input, 0);
    match tags(rest_from(input, 10), tag_count) {
        Ok((tags, rest)) => Ok((RawAsepriteChunk::Tags { tags }, rest)),
        Err(e) => Err(e),
    }
}

/// The failure of a read that cannot go on because the input is too short.
pub open spec fn incomplete_failure() -> ParseFailure {
    ParseFailure::Fatal(
        AsepriteParseError::Generic { kind: crate::error::ReadErrorKind::Eof },
    )
}

/// An ICC profile: its length in bytes as a 32-bit number, then that many
/// bytes. A profile that is cut short cannot be recovered from.
pub open spec fn spec_icc_profile(s: Seq<u8>) -> Result<(Seq<u8>, Seq<u8>), ParseFailure> {
    if s.len() < 4 {
        Err(eof_failure())
    } else if s.len() < 4 + u32_at(s, 0) {
        Err(incomplete_failure())
    } else {
        Ok((s.subrange(4, 4 + u32_at(s, 0)), s.skip(4 + u32_at(s, 0))))
    }
}

/// Reads an ICC profile.
pub fn aseprite_icc_profile<'a>(input: &'a [u8]) -> (res: Result<
    (RawAsepriteIccProfile, &'a [u8]),
    ParseFailure,
>)
    ensures
        match res {
            Ok((profile, rest)) => spec_icc_profile(input@) == Ok::<
                (Seq<u8>, Seq<u8>),
                ParseFailure,
            >((profile.icc_profile@, rest@)),
            Err(e) => spec_icc_profile(input@) == Err::<(Seq<u8>, Seq<u8>), ParseFailure>(e),
        },
{
    if input.len() < 4 {
        return Err(eof());
    }
    let length = read_u32(input, 0);
    if ((input.len() - 4) as u64) < length as u64 {
        return Err(
            ParseFailure::Fatal(
                AsepriteParseError::Generic { kind: crate::error::ReadErrorKind::Eof },
            ),
        );
    }
    let end = 4 + length as usize;
    let icc_profile = vstd::slice::slice_to_vec(vstd::slice::slice_subrange(input, 4, end));
    Ok((RawAsepriteIccProfile { icc_profile }, rest_from(input, end)))
}

/// A fixed-point number: its 32 bits as they are stored.
pub open spec fn spec_fixed(s: Seq<u8>) -> Result<(AsepriteFixed, Seq<u8>), ParseFailure> {
    if s.len() < 4 {
        Err(eof_failure())
    } else {
        Ok((AsepriteFixed { raw: u32_at(s, 0) }, s.skip(4)))
    }
}

/// Reads a fixed-point number.
pub fn aseprite_fixed<'a>(input: &'a [u8]) -> (res: Result<(AsepriteFixed, &'a [u8]), ParseFailure>)
    ensures
        match res {
            Ok((fixed, rest)) => spec_fixed(input@) == Ok::<(AsepriteFixed, Seq<u8>), ParseFailure>(
                (fixed, rest@),
            ),
            Err(e) => spec_fixed(input@) == Err::<(AsepriteFixed, Seq<u8>), ParseFailure>(e),
        },
{
    if input.len() < 4 {
        return Err(eof());
    }
    Ok((AsepriteFixed { raw: read_u32(input, 0) }, rest_from(input, 4)))
}

/// The color profile chunk: the profile's type and its flags as 16-bit
/// numbers, a fixed-point gamma, eight bytes that are passed over, and an
/// ICC profile where bit 1 of the type is set.
pub open spec fn spec_color_profile_chunk(s: Seq<u8>) -> Result<
    (RawAsepriteChunkView, Seq<u8>),
    ParseFailure,
> {
    if s.len() < 16 {
        Err(eof_failure())
    } else if u16_at(s, 0) & 0x2 != 0 {
        match spec_icc_profile(s.skip(16)) {
            Ok((profile, rest)) => Ok(
                (
                    RawAsepriteChunkView::ColorProfile {
                        profile_type: u16_at(s, 0),
                        flags: u16_at(s, 2),
                        gamma: AsepriteFixed { raw: u32_at(s, 4) },
                        icc_profile: Some(profile),
                    },
                    rest,
                ),
            ),
            Err(e) => Err(e),
        }
    } else {
        Ok(
            (
                RawAsepriteChunkView::ColorProfile {
                    profile_type: u16_at(s, 0),
                    flags: u16_at(s, 2),
                    gamma: AsepriteFixed { raw: u32_at(s, 4) },
                    icc_profile: None,
                },
                s.skip(16),
            ),
        )
    }
}

/// Reads the color profile chunk.
pub fn color_profile_chunk<'a>(input: &'a [u8]) -> (res: Result<
    (RawAsepriteChunk, &'a [u8]),
    ParseFailure,
>)
    ensures
        match res {
            Ok((chunk, rest)) => spec_color_profile_chunk(input@) == Ok::<
                (RawAsepriteChunkView, Seq<u8>),
                ParseFailure,
            >((chunk@, rest@)),
            Err(e) => spec_color_profile_chunk(input@) == Err::<
                (RawAsepriteChunkView, Seq<u8>),
                ParseFailure,
            >(e),
        },
{
    if input.len() < 16 {
        return Err(eof());
    }
    let profile_type = read_u16(input, 0);
    let flags = read_u16(input, 2);
    let gamma = AsepriteFixed { raw: read_u32(input, 4) };
    let input = rest_from(input, 16);
    if profile_type & 0x2 != 0 {
        match aseprite_icc_profile(input) {
            Ok((profile, rest)) => Ok(
                (
                    RawAsepriteChunk::ColorProfile {
                        profile_type,
                        flags,
                        gamma,
                        icc_profile: Some(profile),
                    },
                    rest,
                ),
            ),
            Err(e) => Err(e),
        }
    } else {
        Ok((RawAsepriteChunk::ColorProfile { profile_type, flags, gamma, icc_profile: None }, input))
    }
}

/// The nine-patch info whose bytes stand at an offset: the center's x and y
/// as signed and its width and height as unsigned 32-bit numbers.
pub open spec fn nine_patch_info_at(s: Seq<u8>, at: int) -> AsepriteNinePatchInfo {
    AsepriteNinePatchInfo {
        x_center: i32_at(s, at),
        y_center: i32_at(s, at + 4),
        width: u32_at(s, at + 8),
        height: u32_at(s, at + 12),
    }
}

/// Nine-patch info: sixteen bytes.
pub open spec fn spec_nine_patch_info(s: Seq<u8>) -> Result<
    (AsepriteNinePatchInfo, Seq<u8>),
    ParseFailure,
> {
    if s.len() < 16 {
        Err(eof_failure())
    } else {
        Ok((nine_patch_info_at(s, 0), s.skip(16)))
    }
}

fn nine_patch_info_from(input: &[u8], at: usize) -> (info: AsepriteNinePatchInfo)
    requires
        at + 16 <= input@.len(),
    ensures
        info == nine_patch_info_at(input@, at as int),
{
    let len = input.len();
    assert(at + 16 <= len);
    AsepriteNinePatchInfo {
        x_center: read_i32(input, at),
        y_center: read_i32(input, at + 4),
        width: read_u32(input, at + 8),
        height: read_u32(input, at + 12),
    }
}

/// Reads nine-patch info.
pub fn aseprite_nine_patch_info<'a>(input: &'a [u8]) -> (res: Result<
    (AsepriteNinePatchInfo, &'a [u8]),
    ParseFailure,
>)
    ensures
        match res {
            Ok((info, rest)) => spec_nine_patch_info(input@) == Ok::<
                (AsepriteNinePatchInfo, Seq<u8>),
                ParseFailure,
            >((info, rest@)),
            Err(e) => spec_nine_patch_info(input@) == Err::<
                (AsepriteNinePatchInfo, Seq<u8>),
                ParseFailure,
            >(e),
        },
{
    if input.len() < 16 {
        return Err(eof());
    }
    Ok((nine_patch_info_from(input, 0), rest_from(input, 16)))
}

/// The pivot whose bytes stand at an offset: its x and y as signed 32-bit
/// numbers.
pub open spec fn pivot_at(s: Seq<u8>, at: int) -> AsepritePivot {
    AsepritePivot { x_pivot: i32_at(s, at), y_pivot: i32_at(s, at + 4) }
}

/// A pivot: eight bytes.
pub open spec fn spec_pivot(s: Seq<u8>) -> Result<(AsepritePivot, Seq<u8>), ParseFailure> {
    if s.len() < 8 {
        Err(eof_failure())
    } else {
        Ok((pivot_at(s, 0), s.skip(8)))
    }
}

/// Reads a pivot.
pub fn aseprite_pivot<'a>(input: &'a [u8]) -> (res: Result<(AsepritePivot, &'a [u8]), ParseFailure>)
    ensures
        match res {
            Ok((pivot, rest)) => spec_pivot(input@) == Ok::<(AsepritePivot, Seq<u8>), ParseFailure>(
                (pivot, rest@),
            ),
            Err(e) => spec_pivot(input@) == Err::<(AsepritePivot, Seq<u8>), ParseFailure>(e),
        },
{
    if input.len() < 8 {
        return Err(eof());
    }
    Ok(
        (
            AsepritePivot { x_pivot: read_i32(input, 0), y_pivot: read_i32(input, 4) },
            rest_from(input, 8),
        ),
    )
}

/// The number of bytes that a slice takes under the flags of its chunk:
/// twenty, sixteen more where bit 0 asks for nine-patch info, and eight
/// more where bit 1 asks for a pivot.
pub open spec fn slice_size(flags: u32) -> nat {
    (20 + if flags & 0x1 != 0 {
        16nat
    } else {
        0nat
    } + if flags & 0x2 != 0 {
        8nat
    } else {
        0nat
    }) as nat
}

/// The slice whose bytes stand at an offset: the frame from which it is
/// valid, its origin, its size, and what the flags ask for.
pub open spec fn slice_at(s: Seq<u8>, at: int, flags: u32) -> RawAsepriteSlice {
    RawAsepriteSlice {
        frame: u32_at(s, at),
        x_origin: i32_at(s, at + 4),
        y_origin: i32_at(s, at + 8),
        width: u32_at(s, at + 12),
        height: u32_at(s, at + 16),
        nine_patch_info: if flags & 0x1 != 0 {
            Some(nine_patch_info_at(s, at + 20))
        } else {
            None
        },
        pivot: if flags & 0x2 != 0 {
            Some(
                pivot_at(
                    s,
                    at + 20 + if flags & 0x1 != 0 {
                        16int
                    } else {
                        0int
                    },
                ),
            )
        } else {
            None
        },
    }
}

/// A slice under the flags of its chunk.
pub open spec fn spec_slice(s: Seq<u8>, flags: u32) -> Result<
    (RawAsepriteSlice, Seq<u8>),
    ParseFailure,
> {
    if s.len() < slice_size(flags) {
        Err(eof_failure())
    } else {
        Ok((slice_at(s, 0, flags), s.skip(slice_size(flags) as int)))
    }
}

fn slice_size_of(flags: u32) -> (size: usize)
    ensures
        size == slice_size(flags),
        20 <= size <= 44,
{
    let nine: usize = if flags & 0x1 != 0 {
        16
    } else {
        0
    };
    let pivot: usize = if flags & 0x2 != 0 {
        8
    } else {
        0
    };
    20 + nine + pivot
}

fn slice_from(input: &[u8], at: usize, flags: u32) -> (slice: RawAsepriteSlice)
    requires
        at + slice_size(flags) <= input@.len(),
    ensures
        slice == slice_at(input@, at as int, flags),
{
    let len = input.len();
    assert(at + slice_size(flags) <= len);
    let nine_patch_info = if flags & 0x1 != 0 {
        Some(nine_patch_info_from(input, at + 20))
    } else {
        None
    };
    let pivot_offset: usize = if flags & 0x1 != 0 {
        at + 36
    } else {
        at + 20
    };
    let pivot = if flags & 0x2 != 0 {
        Some(
            AsepritePivot {
                x_pivot: read_i32(input, pivot_offset),
                y_pivot: read_i32(input, pivot_offset + 4),
            },
        )
    } else {
        None
    };
    RawAsepriteSlice {
        frame: read_u32(input, at),
        x_origin: read_i32(input, at + 4),
        y_origin: read_i32(input, at + 8),
        width: read_u32(input, at + 12),
        height: read_u32(input, at + 16),
        nine_patch_info,
        pivot,
    }
}

/// Reads a slice.
pub fn aseprite_slice<'a>(input: &'a [u8], flags: u32) -> (res: Result<
    (RawAsepriteSlice, &'a [u8]),
    ParseFailure,
>)
    ensures
        match res {
            Ok((slice, rest)) => spec_slice(input@, flags) == Ok::<
                (RawAsepriteSlice, Seq<u8>),
                ParseFailure,
            >((slice, rest@)),
            Err(e) => spec_slice(input@, flags) == Err::<(RawAsepriteSlice, Seq<u8>), ParseFailure>(
                e,
            ),
        },
{
    let size = slice_size_of(flags);
    if input.len() < size {
        return Err(eof());
    }
    Ok((slice_from(input, 0, flags), rest_from(input, size)))
}

/// A run of `slice_count` slices, one after the other.
pub open spec fn spec_slices(s: Seq<u8>, slice_count: nat, flags: u32) -> Result<
    (Seq<RawAsepriteSlice>, Seq<u8>),
    ParseFailure,
> {
    if s.len() < slice_count * slice_size(flags) {
        Err(eof_failure())
    } else {
        Ok(
            (
                Seq::new(slice_count, |i: int| slice_at(s, i * slice_size(flags), flags)),
                s.skip((slice_count * slice_size(flags)) as int),
            ),
        )
    }
}

/// Reads a run of slices.
pub fn aseprite_slices<'a>(input: &'a [u8], slice_count: usize, flags: u32) -> (res: Result<
    (Vec<RawAsepriteSlice>, &'a [u8]),
    ParseFailure,
>)
    ensures
        match res {
            Ok((slices, rest)) => spec_slices(input@, slice_count as nat, flags) == Ok::<
                (Seq<RawAsepriteSlice>, Seq<u8>),
                ParseFailure,
            >((slices@, rest@)),
            Err(e) => spec_slices(input@, slice_count as nat, flags) == Err::<
                (Seq<RawAsepriteSlice>, Seq<u8>),
                ParseFailure,
            >(e),
        },
{
    let size = slice_size_of(flags);
    let len = input.len();
    let total = match slice_count.checked_mul(size) {
        Some(total) => total,
        None => {
            return Err(eof());
        },
    };
    if len < total {
        return Err(eof());
    }
    let mut slices: Vec<RawAsepriteSlice> = Vec::new();
    let mut i: usize = 0;
    while i < slice_count
        invariant
            i <= slice_count,
            size == slice_size(flags),
            total == slice_count * size,
            total <= input@.len(),
            slices@.len() == i,
            forall|k: int| 0 <= k < i ==> #[trigger] slices@[k] == slice_at(input@, k * size, flags),
        decreases slice_count - i,
    {
        assert(i * size + size <= slice_count * size) by (nonlinear_arith)
            requires
                i < slice_count,
                size >= 0,
        ;
        slices.push(slice_from(input, i * size, flags));
        i += 1;
    }
    assert(slices@ =~= spec_slices(input@, slice_count as nat, flags).unwrap().0);
    Ok((slices, rest_from(input, total)))
}

/// The slice chunk: the number of slices and the flags as 32-bit numbers,
/// four bytes that are passed over, the name, and the slices.
pub open spec fn spec_slice_chunk(s: Seq<u8>) -> Result<
    (RawAsepriteChunkView, Seq<u8>),
    ParseFailure,
> {
    if s.len() < 12 {
        Err(eof_failure())
    } else {
        match spec_string(s.skip(12)) {
            Ok((name, rest)) => match spec_slices(rest, u32_at(s, 0) as nat, u32_at(s, 4)) {
                Ok((slices, after)) => Ok(
                    (RawAsepriteChunkView::Slice { flags: u32_at(s, 4), name, slices }, after),
                ),
                Err(e) => Err(e),
            },
            Err(e) => Err(e),
        }
    }
}

/// Reads the slice chunk.
pub fn slice_chunk<'a>(input: &'a [u8]) -> (res: Result<(RawAsepriteChunk, &'a [u8]), ParseFailure>)
    ensures
        match res {
            Ok((chunk, rest)) => spec_slice_chunk(input@) == Ok::<
                (RawAsepriteChunkView, Seq<u8>),
                ParseFailure,
            >((chunk@, rest@)),
            Err(e) => spec_slice_chunk(input@) == Err::<
                (RawAsepriteChunkView, Seq<u8>),
                ParseFailure,
            >(e),
        },
{
    if input.len() < 12 {
        return Err(eof());
    }
    let slice_count = read_u32(input, 0);
    let flags = read_u32(input, 4);
    let (name, input) = match aseprite_string(rest_from(input, 12)) {
        Ok((name, rest)) => (name, rest),
        Err(e) => {
            return Err(e);
        },
    };
    match aseprite_slices(input, slice_count as usize, flags) {
        Ok((slices, rest)) => Ok((RawAsepriteChunk::Slice { flags, name, slices }, rest)),
        Err(e) => Err(e),
    }
}

/// The user data chunk: user data.
pub open spec fn spec_user_data_chunk(s: Seq<u8>) -> Result<
    (RawAsepriteChunkView, Seq<u8>),
    ParseFailure,
> {
    match spec_user_data(s) {
        Ok((data, rest)) => Ok((RawAsepriteChunkView::UserData { data }, rest)),
        Err(e) => Err(e),
    }
}

/// Reads the user data chunk.
pub fn user_data_chunk<'a>(input: &'a [u8]) -> (res: Result<
    (RawAsepriteChunk, &'a [u8]),
    ParseFailure,
>)
    ensures
        match res {
            Ok((chunk, rest)) => spec_user_data_chunk(input@) == Ok::<
                (RawAsepriteChunkView, Seq<u8>),
                ParseFailure,
            >((chunk@, rest@)),
            Err(e) => spec_user_data_chunk(input@) == Err::<
                (RawAsepriteChunkView, Seq<u8>),
                ParseFailure,
            >(e),
        },
{
    match aseprite_user_data(input) {
        Ok((data, rest)) => Ok((RawAsepriteChunk::UserData { data }, rest)),
        Err(e) => Err(e),
    }
}

/// A palette entry: flags as a 16-bit number, a color, and a name where
/// bit 0 of the flags is set.
pub open spec fn spec_palette(s: Seq<u8>) -> Result<
    (RawAsepritePaletteEntryView, Seq<u8>),
    ParseFailure,
> {
    if s.len() < 6 {
        Err(eof_failure())
    } else if u16_at(s, 0) & 0x1 == 0x1 {
        match spec_string(s.skip(6)) {
            Ok((name, rest)) => Ok(
                (RawAsepritePaletteEntryView { color: color_at(s, 2), name: Some(name) }, rest),
            ),
            Err(e) => Err(e),
        }
    } else {
        Ok((RawAsepritePaletteEntryView { color: color_at(s, 2), name: None }, s.skip(6)))
    }
}

/// Reads a palette entry.
pub fn aseprite_palette<'a>(input: &'a [u8]) -> (res: Result<
    (RawAsepritePaletteEntry, &'a [u8]),
    ParseFailure,
>)
    ensures
        match res {
            Ok((entry, rest)) => spec_palette(input@) == Ok::<
                (RawAsepritePaletteEntryView, Seq<u8>),
                ParseFailure,
            >((entry@, rest@)),
            Err(e) => spec_palette(input@) == Err::<
                (RawAsepritePaletteEntryView, Seq<u8>),
                ParseFailure,
            >(e),
        },
{
    if input.len() < 6 {
        return Err(eof());
    }
    let flags = read_u16(input, 0);
    let color = AsepriteColor {
        red: input[2],
        green: input[3],
        blue: input[4],
        alpha: input[5],
    };
    let input = rest_from(input, 6);
    if flags & 0x1 == 0x1 {
        match aseprite_string(input) {
            Ok((name, rest)) => Ok((RawAsepritePaletteEntry { color, name: Some(name) }, rest)),
            Err(e) => Err(e),
        }
    } else {
        Ok((RawAsepritePaletteEntry { color, name: None }, input))
    }
}

/// A run of `palette_count` palette entries, one after the other. The
/// first entry that cannot be read ends the run with its failure.
pub open spec fn spec_palettes(s: Seq<u8>, palette_count: nat) -> Result<
    (Seq<RawAsepritePaletteEntryView>, Seq<u8>),
    ParseFailure,
>
    decreases palette_count,
{
    if palette_count == 0 {
        Ok((Seq::empty(), s))
    } else {
        match spec_palettes(s, (palette_count - 1) as nat) {
            Ok((entries, rest)) => match spec_palette(rest) {
                Ok((entry, after)) => Ok((entries.push(entry), after)),
                Err(e) => Err(e),
            },
            Err(e) => Err(e),
        }
    }
}

/// Once a palette entry has failed, the entries after it change nothing.
pub proof fn lemma_palettes_failure_stays(s: Seq<u8>, failed: nat, palette_count: nat)
    requires
        failed <= palette_count,
        spec_palettes(s, failed) is Err,
    ensures
        spec_palettes(s, palette_count) == spec_palettes(s, failed),
    decreases palette_count,
{
    if failed < palette_count {
        lemma_palettes_failure_stays(s, failed, (palette_count - 1) as nat);
    }
}

/// Reads a run of palette entries.
pub fn aseprite_palettes<'a>(input: &'a [u8], palette_count: usize) -> (res: Result<
    (Vec<RawAsepritePaletteEntry>, &'a [u8]),
    ParseFailure,
>)
    ensures
        match res {
            Ok((entries, rest)) => spec_palettes(input@, palette_count as nat) == Ok::<
                (Seq<RawAsepritePaletteEntryView>, Seq<u8>),
                ParseFailure,
            >((views(entries@), rest@)),
            Err(e) => spec_palettes(input@, palette_count as nat) == Err::<
                (Seq<RawAsepritePaletteEntryView>, Seq<u8>),
                ParseFailure,
            >(e),
        },
{
    let mut entries: Vec<RawAsepritePaletteEntry> = Vec::new();
    let mut rest = input;
    let mut i: usize = 0;
    assert(views(entries@) =~= Seq::<RawAsepritePaletteEntryView>::empty());
    while i < palette_count
        invariant
            i <= palette_count,
            spec_palettes(input@, i as nat) == Ok::<
                (Seq<RawAsepritePaletteEntryView>, Seq<u8>),
                ParseFailure,
            >((views(entries@), rest@)),
        decreases palette_count - i,
    {
        let ghost before = views(entries@);
        match aseprite_palette(rest) {
            Ok((entry, after)) => {
                entries.push(entry);
                rest = after;
                assert(views(entries@) =~= before.push(entry@));
            },
            Err(e) => {
                proof {
                    lemma_palettes_failure_stays(input@, (i + 1) as nat, palette_count as nat);
                }
                return Err(e);
            },
        }
        i += 1;
    }
    Ok((entries, rest))
}

/// The number of entries that a palette chunk carries for the colors from
/// `from_color` to `to_color`: their difference plus one, modulo 2^32.
pub open spec fn palette_entry_count(from_color: u32, to_color: u32) -> u32 {
    to_color.wrapping_sub(from_color).wrapping_add(1)
}

/// The palette chunk: the size of the palette, the first and the last
/// color that the chunk sets as 32-bit numbers, eight bytes that are passed
/// over, and an entry for each of these colors.
pub open spec fn spec_palette_chunk(s: Seq<u8>) -> Result<
    (RawAsepriteChunkView, Seq<u8>),
    ParseFailure,
> {
    if s.len() < 20 {
        Err(eof_failure())
    } else {
        match spec_palettes(s.skip(20), palette_entry_count(u32_at(s, 4), u32_at(s, 8)) as nat) {
            Ok((entries, rest)) => Ok(
                (
                    RawAsepriteChunkView::Palette {
                        palette_size: u32_at(s, 0),
                        from_color: u32_at(s, 4),
                        to_color: u32_at(s, 8),
                        entries,
                    },
                    rest,
                ),
            ),
            Err(e) => Err(e),
        }
    }
}

/// Reads the palette chunk.
pub fn palette_chunk<'a>(input: &'a [u8]) -> (res: Result<
    (RawAsepriteChunk, &'a [u8]),
    ParseFailure,
>)
    ensures
        match res {
            Ok((chunk, rest)) => spec_palette_chunk(input@) == Ok::<
                (RawAsepriteChunkView, Seq<u8>),
                ParseFailure,
            >((chunk@, rest@)),
            Err(e) => spec_palette_chunk(input@) == Err::<
                (RawAsepriteChunkView, Seq<u8>),
                ParseFailure,
            >(e),
        },
{
    if input.len() < 20 {
        return Err(eof());
    }
    let palette_size = read_u32(input, 0);
    let from_color = read_u32(input, 4);
    let to_color = read_u32(input, 8);
    let count = to_color.wrapping_sub(from_color).wrapping_add(1);
    match aseprite_palettes(rest_from(input, 20), count as usize) {
        Ok((entries, rest)) => Ok(
            (RawAsepriteChunk::Palette { palette_size, from_color, to_color, entries }, rest),
        ),
        Err(e) => Err(e),
    }
}

/// The cel extra chunk: flags as a 32-bit number and four fixed-point
/// numbers, the precise x, y, width and height.
pub open spec fn spec_cel_extra_chunk(s: Seq<u8>) -> Result<
    (RawAsepriteChunkView, Seq<u8>),
    ParseFailure,
> {
    if s.len() < 20 {
        Err(eof_failure())
    } else {
        Ok(
            (
                RawAsepriteChunkView::CelExtra {
                    flags: u32_at(s, 0),
                    x: AsepriteFixed { raw: u32_at(s, 4) },
                    y: AsepriteFixed { raw: u32_at(s, 8) },
                    width: AsepriteFixed { raw: u32_at(s, 12) },
                    height: AsepriteFixed { raw: u32_at(s, 16) },
                },
                s.skip(20),
            ),
        )
    }
}

/// Reads the cel extra chunk.
pub fn cel_extra_chunk<'a>(input: &'a [u8]) -> (res: Result<
    (RawAsepriteChunk, &'a [u8]),
    ParseFailure,
>)
    ensures
        match res {
            Ok((chunk, rest)) => spec_cel_extra_chunk(input@) == Ok::<
                (RawAsepriteChunkView, Seq<u8>),
                ParseFailure,
            >((chunk@, rest@)),
            Err(e) => spec_cel_extra_chunk(input@) == Err::<
                (RawAsepriteChunkView, Seq<u8>),
                ParseFailure,
            >(e),
        },
{
    if input.len() < 20 {
        return Err(eof());
    }
    Ok(
        (
            RawAsepriteChunk::CelExtra {
                flags: read_u32(input, 0),
                x: AsepriteFixed { raw: read_u32(input, 4) },
                y: AsepriteFixed { raw: read_u32(input, 8) },
                width: AsepriteFixed { raw: read_u32(input, 12) },
                height: AsepriteFixed { raw: read_u32(input, 16) },
            },
            rest_from(input, 20),
        ),
    )
}

/// The cel chunk: the layer as a 16-bit number, the x and y offsets as
/// signed 16-bit numbers, the opacity as a byte, the cel's type as a 16-bit
/// number, seven bytes that are passed over, and the content of the cel.
pub open spec fn spec_cel_chunk(s: Seq<u8>, header: RawAsepriteHeader) -> Result<
    (RawAsepriteChunkView, Seq<u8>),
    ParseFailure,
> {
    if s.len() < 16 {
        Err(eof_failure())
    } else {
        match spec_cel(s.skip(16), header, u16_at(s, 7)) {
            Ok((cel, rest)) => Ok(
                (
                    RawAsepriteChunkView::Cel {
                        layer_index: u16_at(s, 0),
                        x: i16_at(s, 2),
                        y: i16_at(s, 4),
                        opacity: s[6],
                        cel,
                    },
                    rest,
                ),
            ),
            Err(e) => Err(e),
        }
    }
}

/// Reads the cel chunk.
pub fn cel_chunk<'a>(input: &'a [u8], header: &RawAsepriteHeader) -> (res: Result<
    (RawAsepriteChunk, &'a [u8]),
    ParseFailure,
>)
    ensures
        match res {
            Ok((chunk, rest)) => spec_cel_chunk(input@, *header) == Ok::<
                (RawAsepriteChunkView, Seq<u8>),
                ParseFailure,
            >((chunk@, rest@)) && chunk@.well_formed(),
            Err(e) => spec_cel_chunk(input@, *header) == Err::<
                (RawAsepriteChunkView, Seq<u8>),
                ParseFailure,
            >(e),
        },
{
    if input.len() < 16 {
        return Err(eof());
    }
    let layer_index = read_u16(input, 0);
    let x = read_i16(input, 2);
    let y = read_i16(input, 4);
    let opacity = read_u8(input, 6);
    let cel_type = read_u16(input, 7);
    match aseprite_cel(rest_from(input, 16), header, cel_type) {
        Ok((cel, rest)) => Ok((RawAsepriteChunk::Cel { layer_index, x, y, opacity, cel }, rest)),
        Err(e) => Err(e),
    }
}

/// The layer chunk: flags, the layer's type, its depth among the layers,
/// a width and a height that are not used, and the blend mode, each as a
/// 16-bit number; the opacity as a byte; three bytes that are passed over;
/// and the name.
pub open spec fn spec_layer_chunk(s: Seq<u8>) -> Result<
    (RawAsepriteChunkView, Seq<u8>),
    ParseFailure,
> {
    if s.len() < 2 {
        Err(eof_failure())
    } else {
        match spec_layer_type(s.skip(2)) {
            Ok((layer_type, _)) => if s.len() < 10 {
                Err(eof_failure())
            } else {
                match spec_blend_mode(s.skip(10)) {
                    Ok((blend_mode, _)) => if s.len() < 16 {
                        Err(eof_failure())
                    } else {
                        match spec_string(s.skip(16)) {
                            Ok((name, rest)) => Ok(
                                (
                                    RawAsepriteChunkView::Layer {
                                        flags: u16_at(s, 0),
                                        layer_type,
                                        layer_child: u16_at(s, 4),
                                        width: u16_at(s, 6),
                                        height: u16_at(s, 8),
                                        blend_mode,
                                        opacity: s[12],
                                        name,
                                    },
                                    rest,
                                ),
                            ),
                            Err(e) => Err(e),
                        }
                    },
                    Err(e) => Err(e),
                }
            },
            Err(e) => Err(e),
        }
    }
}

/// Reads the layer chunk.
pub fn layer_chunk<'a>(input: &'a [u8]) -> (res: Result<(RawAsepriteChunk, &'a [u8]), ParseFailure>)
    ensures
        match res {
            Ok((chunk, rest)) => spec_layer_chunk(input@) == Ok::<
                (RawAsepriteChunkView, Seq<u8>),
                ParseFailure,
            >((chunk@, rest@)),
            Err(e) => spec_layer_chunk(input@) == Err::<
                (RawAsepriteChunkView, Seq<u8>),
                ParseFailure,
            >(e),
        },
{
    if input.len() < 2 {
        return Err(eof());
    }
    let flags = read_u16(input, 0);
    let layer_type = match aseprite_layer_type(rest_from(input, 2)) {
        Ok((layer_type, _)) => layer_type,
        Err(e) => {
            return Err(e);
        },
    };
    if input.len() < 10 {
        return Err(eof());
    }
    let layer_child = read_u16(input, 4);
    let width = read_u16(input, 6);
    let height = read_u16(input, 8);
    let blend_mode = match aseprite_blend_mode(rest_from(input, 10)) {
        Ok((blend_mode, _)) => blend_mode,
        Err(e) => {
            return Err(e);
        },
    };
    if input.len() < 16 {
        return Err(eof());
    }
    let opacity = read_u8(input, 12);
    match aseprite_string(rest_from(input, 16)) {
        Ok((name, rest)) => Ok(
            (
                RawAsepriteChunk::Layer {
                    flags,
                    layer_type,
                    layer_child,
                    width,
                    height,
                    blend_mode,
                    opacity,
                    name,
                },
                rest,
            ),
        ),
        Err(e) => Err(e),
    }
}


/// The kinds of chunk that are read.
#[derive(Debug, PartialEq, Eq, Clone, Copy)]
#[allow(missing_docs)]
pub enum ChunkKind {
    Layer,
    Cel,
    CelExtra,
    ColorProfile,
    Tags,
    Palette,
    UserData,
    Slice,
}

/// The kind of chunk that a type code stands for, if it is one that is
/// read. Every other code is passed over.
pub open spec fn chunk_kind_of(chunk_type: u16) -> Option<ChunkKind> {
    if chunk_type == 0x2004 {
        Some(ChunkKind::Layer)
    } else if chunk_type == 0x2005 {
        Some(ChunkKind::Cel)
    } else if chunk_type == 0x2006 {
        Some(ChunkKind::CelExtra)
    } else if chunk_type == 0x2007 {
        Some(ChunkKind::ColorProfile)
    } else if chunk_type == 0x2018 {
        Some(ChunkKind::Tags)
    } else if chunk_type == 0x2019 {
        Some(ChunkKind::Palette)
    } else if chunk_type == 0x2020 {
        Some(ChunkKind::UserData)
    } else if chunk_type == 0x2022 {
        Some(ChunkKind::Slice)
    } else {
        None
    }
}

/// An error with the kind of chunk in which it occurred.
pub open spec fn error_in_chunk(kind: ChunkKind, error: AsepriteParseError) -> AsepriteParseError {
    match kind {
        ChunkKind::Layer => AsepriteParseError::InvalidLayerChunk(Box::new(error)),
        ChunkKind::Cel => AsepriteParseError::InvalidCelChunk(Box::new(error)),
        ChunkKind::CelExtra => AsepriteParseError::InvalidCelExtraChunk(Box::new(error)),
        ChunkKind::ColorProfile => AsepriteParseError::InvalidColorProfileChunk(Box::new(error)),
        ChunkKind::Tags => AsepriteParseError::InvalidTagsChunk(Box::new(error)),
        ChunkKind::Palette => AsepriteParseError::InvalidPaletteChunk(Box::new(error)),
        ChunkKind::UserData => AsepriteParseError::InvalidUserDataChunk(Box::new(error)),
        ChunkKind::Slice => AsepriteParseError::InvalidSliceChunk(Box::new(error)),
    }
}

/// A failure with the kind of chunk in which it occurred; it stays as
/// severe as it is.
pub open spec fn failure_in_chunk(kind: ChunkKind, failure: ParseFailure) -> ParseFailure {
    match failure {
        ParseFailure::Recoverable(e) => ParseFailure::Recoverable(error_in_chunk(kind, e)),
        ParseFailure::Fatal(e) => ParseFailure::Fatal(error_in_chunk(kind, e)),
    }
}

fn in_chunk(kind: ChunkKind, failure: ParseFailure) -> (wrapped: ParseFailure)
    ensures
        wrapped == failure_in_chunk(kind, failure),
{
    match failure {
        ParseFailure::Recoverable(e) => ParseFailure::Recoverable(wrap_error(kind, e)),
        ParseFailure::Fatal(e) => ParseFailure::Fatal(wrap_error(kind, e)),
    }
}

fn wrap_error(kind: ChunkKind, error: AsepriteParseError) -> (wrapped: AsepriteParseError)
    ensures
        wrapped == error_in_chunk(kind, error),
{
    match kind {
        ChunkKind::Layer => AsepriteParseError::InvalidLayerChunk(Box::new(error)),
        ChunkKind::Cel => AsepriteParseError::InvalidCelChunk(Box::new(error)),
        ChunkKind::CelExtra => AsepriteParseError::InvalidCelExtraChunk(Box::new(error)),
        ChunkKind::ColorProfile => AsepriteParseError::InvalidColorProfileChunk(Box::new(error)),
        ChunkKind::Tags => AsepriteParseError::InvalidTagsChunk(Box::new(error)),
        ChunkKind::Palette => AsepriteParseError::InvalidPaletteChunk(Box::new(error)),
        ChunkKind::UserData => AsepriteParseError::InvalidUserDataChunk(Box::new(error)),
        ChunkKind::Slice => AsepriteParseError::InvalidSliceChunk(Box::new(error)),
    }
}

/// What the parser of a kind of chunk reads from the data of a chunk.
pub open spec fn spec_chunk_of_kind(
    kind: ChunkKind,
    data: Seq<u8>,
    header: RawAsepriteHeader,
) -> Result<
    (RawAsepriteChunkView, Seq<u8>),
    ParseFailure,
> {
    match kind {
        ChunkKind::Layer => spec_layer_chunk(data),
        ChunkKind::Cel => spec_cel_chunk(data, header),
        ChunkKind::CelExtra => spec_cel_extra_chunk(data),
        ChunkKind::ColorProfile => spec_color_profile_chunk(data),
        ChunkKind::Tags => spec_tags_chunk(data),
        ChunkKind::Palette => spec_palette_chunk(data),
        ChunkKind::UserData => spec_user_data_chunk(data),
        ChunkKind::Slice => spec_slice_chunk(data),
    }
}

/// The chunk that the data of a chunk of a given kind hold.
///
/// The parser of the kind has to use up the data: it is a failure if bytes
/// are left. A failure comes with the kind of chunk.
pub open spec fn spec_chunk_data(
    kind: ChunkKind,
    data: Seq<u8>,
    header: RawAsepriteHeader,
) -> Result<
    RawAsepriteChunkView,
    ParseFailure,
> {
    match spec_chunk_of_kind(kind, data, header) {
        Ok((chunk, rest)) => if rest.len() == 0 {
            Ok(chunk)
        } else {
            Err(failure_in_chunk(kind, eof_failure()))
        },
        Err(e) => Err(failure_in_chunk(kind, e)),
    }
}

/// A chunk of a frame: its size in bytes as a 32-bit number, which counts
/// these four bytes and the two of the type, its type as a 16-bit number,
/// and its data. A chunk of a type that is not read gives nothing.
pub open spec fn spec_chunk(s: Seq<u8>, header: RawAsepriteHeader) -> Result<
    (Option<RawAsepriteChunkView>, Seq<u8>),
    ParseFailure,
> {
    if s.len() < 6 || u32_at(s, 0) < 6 || s.len() < u32_at(s, 0) {
        Err(eof_failure())
    } else {
        match chunk_kind_of(u16_at(s, 4)) {
            Some(kind) => match spec_chunk_data(kind, s.subrange(6, u32_at(s, 0) as int), header) {
                Ok(chunk) => Ok((Some(chunk), s.skip(u32_at(s, 0) as int))),
                Err(e) => Err(e),
            },
            None => Ok((None, s.skip(u32_at(s, 0) as int))),
        }
    }
}

fn chunk_kind(chunk_type: u16) -> (kind: Option<ChunkKind>)
    ensures
        kind == chunk_kind_of(chunk_type),
{
    match chunk_type {
        0x2004 => Some(ChunkKind::Layer),
        0x2005 => Some(ChunkKind::Cel),
        0x2006 => Some(ChunkKind::CelExtra),
        0x2007 => Some(ChunkKind::ColorProfile),
        0x2018 => Some(ChunkKind::Tags),
        0x2019 => Some(ChunkKind::Palette),
        0x2020 => Some(ChunkKind::UserData),
        0x2022 => Some(ChunkKind::Slice),
        _ => None,
    }
}

/// Reads a chunk of a frame.
pub fn aseprite_chunk<'a>(input: &'a [u8], header: &RawAsepriteHeader) -> (res: Result<
    (Option<RawAsepriteChunk>, &'a [u8]),
    ParseFailure,
>)
    ensures
        match res {
            Ok((chunk, rest)) => spec_chunk(input@, *header) == Ok::<
                (Option<RawAsepriteChunkView>, Seq<u8>),
                ParseFailure,
            >((chunk_view(chunk), rest@)) && (chunk matches Some(c) ==> c@.well_formed())
                && rest@.len() < input@.len(),
            Err(e) => spec_chunk(input@, *header) == Err::<
                (Option<RawAsepriteChunkView>, Seq<u8>),
                ParseFailure,
            >(e),
        },
{
    if input.len() < 6 {
        return Err(eof());
    }
    let chunk_size = read_u32(input, 0);
    let chunk_type = read_u16(input, 4);
    if chunk_size < 6 || (input.len() as u64) < chunk_size as u64 {
        return Err(eof());
    }
    let chunk_data = vstd::slice::slice_subrange(input, 6, chunk_size as usize);
    let rest = rest_from(input, chunk_size as usize);
    let kind = match chunk_kind(chunk_type) {
        Some(kind) => kind,
        None => {
            return Ok((None, rest));
        },
    };
    let parsed = match kind {
        ChunkKind::Layer => layer_chunk(chunk_data),
        ChunkKind::Cel => cel_chunk(chunk_data, header),
        ChunkKind::CelExtra => cel_extra_chunk(chunk_data),
        ChunkKind::ColorProfile => color_profile_chunk(chunk_data),
        ChunkKind::Tags => tags_chunk(chunk_data),
        ChunkKind::Palette => palette_chunk(chunk_data),
        ChunkKind::UserData => user_data_chunk(chunk_data),
        ChunkKind::Slice => slice_chunk(chunk_data),
    };
    match parsed {
        Ok((chunk, left)) => {
            if left.len() == 0 {
                Ok((Some(chunk), rest))
            } else {
                Err(in_chunk(kind, eof()))
            }
        },
        Err(e) => Err(in_chunk(kind, e)),
    }
}

/// What an optional chunk holds.
pub open spec fn chunk_view(chunk: Option<RawAsepriteChunk>) -> Option<RawAsepriteChunkView> {
    match chunk {
        Some(c) => Some(c@),
        None => None,
    }
}

} // verus!
