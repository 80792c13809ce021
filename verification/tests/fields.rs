use aseprite_reader::chunks::{
    aseprite_anim_direction, aseprite_blend_mode, aseprite_color, aseprite_fixed,
    aseprite_icc_profile, aseprite_layer_type, aseprite_nine_patch_info, aseprite_palettes,
    aseprite_pivot, aseprite_pixel, aseprite_slices, tags,
};
use aseprite_reader::decode::{aseprite, aseprite_chunks};
use aseprite_reader::error::{AsepriteParseError, ParseFailure, ReadErrorKind};
use aseprite_reader::primitives::{read_i16, read_i32, read_u16, read_u32, read_u8, rest_from};
use aseprite_reader::raw::{
    AsepriteAnimationDirection, AsepriteBlendMode, AsepriteColor, AsepriteColorDepth,
    AsepriteFixed, AsepriteLayerType, AsepriteNinePatchInfo, AsepritePivot, AsepritePixel,
    RawAsepriteHeader,
};

fn eof() -> ParseFailure {
    ParseFailure::Recoverable(AsepriteParseError::Generic { kind: ReadErrorKind::Eof })
}

fn header(depth: AsepriteColorDepth) -> RawAsepriteHeader {
    RawAsepriteHeader {
        file_size: 0,
        magic_number: 0xA5E0,
        frames: 1,
        width: 1,
        height: 1,
        color_depth: depth,
        flags: 0,
        speed: 0,
        transparent_palette: 0,
        color_count: 0,
        pixel_width: 1,
        pixel_height: 1,
        grid_x: 0,
        grid_y: 0,
        grid_width: 0,
        grid_height: 0,
    }
}

#[test]
fn numbers_are_little_endian() {
    let bytes = [0x01, 0x02, 0x03, 0x84, 0xFF, 0xFF, 0xFF, 0xFF, 0x00, 0x80];
    assert_eq!(read_u8(&bytes, 3), 0x84);
    assert_eq!(read_u16(&bytes, 0), 0x0201);
    assert_eq!(read_u16(&bytes, 2), 0x8403);
    assert_eq!(read_u32(&bytes, 0), 0x8403_0201);
    assert_eq!(read_u32(&bytes, 4), u32::MAX);
    assert_eq!(read_i16(&bytes, 0), 0x0201);
    assert_eq!(read_i16(&bytes, 2), 0x8403u16 as i16);
    assert_eq!(read_i16(&bytes, 4), -1);
    assert_eq!(read_i16(&bytes, 8), i16::MIN);
    assert_eq!(read_i32(&bytes, 0), 0x8403_0201u32 as i32);
    assert_eq!(read_i32(&bytes, 4), -1);
    assert_eq!(read_i32(&bytes, 6), i32::MIN + 0xFFFF);
    assert_eq!(rest_from(&bytes, 8), &[0x00, 0x80]);
    assert!(rest_from(&bytes, 10).is_empty());
}

#[test]
fn colors_and_pixels() {
    let bytes = [1, 2, 3, 4, 5];
    assert_eq!(
        aseprite_color(&bytes).unwrap(),
        (AsepriteColor { red: 1, green: 2, blue: 3, alpha: 4 }, &[5u8][..])
    );
    assert_eq!(aseprite_color(&bytes[..3]).unwrap_err(), eof());
    assert_eq!(
        aseprite_pixel(&bytes, &header(AsepriteColorDepth::RGBA)).unwrap(),
        (
            AsepritePixel::RGBA(AsepriteColor { red: 1, green: 2, blue: 3, alpha: 4 }),
            &[5u8][..]
        )
    );
    assert_eq!(
        aseprite_pixel(&bytes, &header(AsepriteColorDepth::Grayscale)).unwrap(),
        (AsepritePixel::Grayscale { intensity: 0x0201, alpha: 0x0403 }, &[5u8][..])
    );
    assert_eq!(
        aseprite_pixel(&bytes, &header(AsepriteColorDepth::Indexed)).unwrap(),
        (AsepritePixel::Indexed(1), &[2u8, 3, 4, 5][..])
    );
    assert_eq!(aseprite_pixel(&bytes[..3], &header(AsepriteColorDepth::RGBA)).unwrap_err(), eof());
    assert_eq!(
        aseprite_pixel(&bytes[..3], &header(AsepriteColorDepth::Grayscale)).unwrap_err(),
        eof()
    );
    assert_eq!(aseprite_pixel(&[], &header(AsepriteColorDepth::Indexed)).unwrap_err(), eof());
}

#[test]
fn codes() {
    assert_eq!(aseprite_layer_type(&[0, 0, 7]).unwrap(), (AsepriteLayerType::Normal, &[7u8][..]));
    assert_eq!(aseprite_layer_type(&[1, 0]).unwrap().0, AsepriteLayerType::Group);
    assert_eq!(
        aseprite_layer_type(&[0, 1]).unwrap_err(),
        ParseFailure::Fatal(AsepriteParseError::InvalidLayerType(256))
    );
    assert_eq!(aseprite_layer_type(&[0]).unwrap_err(), eof());

    assert_eq!(aseprite_blend_mode(&[4, 0, 7]).unwrap(), (AsepriteBlendMode::Darken, &[7u8][..]));
    assert_eq!(aseprite_blend_mode(&[18, 0]).unwrap().0, AsepriteBlendMode::Divide);
    assert_eq!(
        aseprite_blend_mode(&[19, 0]).unwrap_err(),
        ParseFailure::Fatal(AsepriteParseError::InvalidBlendMode(19))
    );
    assert_eq!(aseprite_blend_mode(&[]).unwrap_err(), eof());

    assert_eq!(
        aseprite_anim_direction(&[0, 7]).unwrap(),
        (AsepriteAnimationDirection::Forward, &[7u8][..])
    );
    assert_eq!(aseprite_anim_direction(&[1]).unwrap().0, AsepriteAnimationDirection::Reverse);
    assert_eq!(aseprite_anim_direction(&[2]).unwrap().0, AsepriteAnimationDirection::PingPong);
    assert_eq!(
        aseprite_anim_direction(&[255]).unwrap_err(),
        ParseFailure::Fatal(AsepriteParseError::InvalidAnimationDirection(255))
    );
    assert_eq!(aseprite_anim_direction(&[]).unwrap_err(), eof());
}

#[test]
fn fixed_nine_patch_and_pivot() {
    let mut bytes = Vec::new();
    bytes.extend_from_slice(&(-7i32).to_le_bytes());
    bytes.extend_from_slice(&8i32.to_le_bytes());
    bytes.extend_from_slice(&9u32.to_le_bytes());
    bytes.extend_from_slice(&u32::MAX.to_le_bytes());
    bytes.push(1);
    assert_eq!(
        aseprite_nine_patch_info(&bytes).unwrap(),
        (
            AsepriteNinePatchInfo { x_center: -7, y_center: 8, width: 9, height: u32::MAX },
            &[1u8][..]
        )
    );
    assert_eq!(aseprite_nine_patch_info(&bytes[..15]).unwrap_err(), eof());
    assert_eq!(
        aseprite_pivot(&bytes).unwrap(),
        (AsepritePivot { x_pivot: -7, y_pivot: 8 }, &bytes[8..])
    );
    assert_eq!(aseprite_pivot(&bytes[..7]).unwrap_err(), eof());
    assert_eq!(
        aseprite_fixed(&[0x00, 0x80, 0x03, 0x00, 9]).unwrap(),
        (AsepriteFixed { raw: 0x0003_8000 }, &[9u8][..])
    );
    assert_eq!(aseprite_fixed(&[0, 0, 0]).unwrap_err(), eof());
}

#[test]
fn icc_profiles() {
    let (profile, rest) = aseprite_icc_profile(&[2, 0, 0, 0, 8, 9, 10]).unwrap();
    assert_eq!(profile.icc_profile, vec![8, 9]);
    assert_eq!(rest, &[10]);
    let (profile, rest) = aseprite_icc_profile(&[0, 0, 0, 0]).unwrap();
    assert!(profile.icc_profile.is_empty());
    assert!(rest.is_empty());
    assert_eq!(aseprite_icc_profile(&[2, 0, 0]).unwrap_err(), eof());
    assert_eq!(
        aseprite_icc_profile(&[2, 0, 0, 0, 8]).unwrap_err(),
        ParseFailure::Fatal(AsepriteParseError::Generic { kind: ReadErrorKind::Eof })
    );
    assert_eq!(
        aseprite_icc_profile(&[0xFF, 0xFF, 0xFF, 0xFF, 8]).unwrap_err(),
        ParseFailure::Fatal(AsepriteParseError::Generic { kind: ReadErrorKind::Eof })
    );
}

#[test]
fn runs_of_records() {
    // Two palette entries without names.
    let entries = [0, 0, 1, 2, 3, 4, 0, 0, 5, 6, 7, 8, 0xEE];
    let (read, rest) = aseprite_palettes(&entries, 2).unwrap();
    assert_eq!(read.len(), 2);
    assert_eq!(read[1].color, AsepriteColor { red: 5, green: 6, blue: 7, alpha: 8 });
    assert_eq!(rest, &[0xEE]);
    assert_eq!(aseprite_palettes(&entries, 3).unwrap_err(), eof());
    let (none, rest) = aseprite_palettes(&entries, 0).unwrap();
    assert!(none.is_empty());
    assert_eq!(rest.len(), entries.len());

    // No tags and no slices.
    let (none, rest) = tags(&[1, 2], 0).unwrap();
    assert!(none.is_empty());
    assert_eq!(rest, &[1, 2]);
    assert_eq!(tags(&[1, 2], 1).unwrap_err(), eof());
    let (none, rest) = aseprite_slices(&[1, 2], 0, 3).unwrap();
    assert!(none.is_empty());
    assert_eq!(rest, &[1, 2]);
    assert_eq!(aseprite_slices(&[0; 39], 2, 0).unwrap_err(), eof());
    assert_eq!(aseprite_slices(&[0; 40], 2, 0).unwrap().0.len(), 2);
    assert_eq!(aseprite_slices(&[0; 40], usize::MAX, 0).unwrap_err(), eof());

    // Chunks of types that are not read are left out.
    let chunks = [6, 0, 0, 0, 4, 0, 7, 0, 0, 0, 0x11, 0, 0x55, 0x99];
    let (read, rest) = aseprite_chunks(&chunks, &header(AsepriteColorDepth::RGBA), 2).unwrap();
    assert!(read.is_empty());
    assert_eq!(rest, &[0x99]);
    assert_eq!(
        aseprite_chunks(&chunks, &header(AsepriteColorDepth::RGBA), 3).unwrap_err(),
        eof()
    );
}

#[test]
fn whole_file_with_what_is_left() {
    let mut bytes = vec![0u8; 128];
    bytes[4] = 0xE0;
    bytes[5] = 0xA5;
    bytes[12] = 16;
    bytes.extend_from_slice(&[0, 0, 0, 0, 0xFA, 0xF1, 0, 0, 9, 0, 0, 0, 0, 0, 0, 0]);
    let (raw, rest) = aseprite(&bytes).unwrap();
    assert!(rest.is_empty());
    assert_eq!(raw.header.color_depth, AsepriteColorDepth::Grayscale);
    assert_eq!(raw.frames.len(), 1);
    assert_eq!(raw.frames[0].duration_ms, 9);
    assert!(raw.frames[0].chunks.is_empty());
    assert!(raw.is_well_formed());
}
