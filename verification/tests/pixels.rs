use aseprite_reader::error::{AsepriteError, AsepriteInvalidError};
use aseprite_reader::raw::{AsepriteColor, AsepriteColorDepth, AsepritePixel};
use aseprite_reader::AsepritePalette;

fn palette() -> AsepritePalette {
    AsepritePalette {
        entries: vec![
            AsepriteColor { red: 1, green: 2, blue: 3, alpha: 4 },
            AsepriteColor { red: 10, green: 20, blue: 30, alpha: 40 },
        ],
    }
}

#[test]
fn rgba_pixel_is_its_own_color() {
    let pixel = AsepritePixel::RGBA(AsepriteColor { red: 9, green: 8, blue: 7, alpha: 6 });
    assert_eq!(pixel.get_rgba(None, None), Ok([9, 8, 7, 6]));
    assert_eq!(pixel.get_rgba(Some(&palette()), Some(0)), Ok([9, 8, 7, 6]));
}

#[test]
fn grayscale_pixel_is_halved() {
    let pixel = AsepritePixel::Grayscale { intensity: 301, alpha: 100 };
    assert_eq!(pixel.get_rgba(None, None), Ok([150, 150, 150, 50]));
    let zero = AsepritePixel::Grayscale { intensity: 1, alpha: 0 };
    assert_eq!(zero.get_rgba(None, None), Ok([0, 0, 0, 0]));
}

#[test]
fn indexed_pixel_takes_palette_entry() {
    let pixel = AsepritePixel::Indexed(1);
    assert_eq!(pixel.get_rgba(Some(&palette()), None), Ok([10, 20, 30, 40]));
    assert_eq!(pixel.get_rgba(Some(&palette()), Some(0)), Ok([10, 20, 30, 40]));
}

#[test]
fn transparent_index_is_transparent_whatever_the_palette() {
    let pixel = AsepritePixel::Indexed(1);
    assert_eq!(pixel.get_rgba(Some(&palette()), Some(1)), Ok([0, 0, 0, 0]));
    assert_eq!(pixel.get_rgba(None, Some(1)), Ok([0, 0, 0, 0]));
    let far = AsepritePixel::Indexed(200);
    assert_eq!(far.get_rgba(Some(&palette()), Some(200)), Ok([0, 0, 0, 0]));
}

#[test]
fn index_without_entry_is_an_error() {
    let pixel = AsepritePixel::Indexed(2);
    assert_eq!(
        pixel.get_rgba(Some(&palette()), None),
        Err(AsepriteError::InvalidConfiguration(AsepriteInvalidError::InvalidPaletteIndex(2)))
    );
    assert_eq!(
        pixel.get_rgba(None, None),
        Err(AsepriteError::InvalidConfiguration(AsepriteInvalidError::InvalidPaletteIndex(2)))
    );
    assert_eq!(
        pixel.get_rgba(None, Some(3)),
        Err(AsepriteError::InvalidConfiguration(AsepriteInvalidError::InvalidPaletteIndex(2)))
    );
}

#[test]
fn bytes_per_pixel_of_each_depth() {
    assert_eq!(AsepriteColorDepth::RGBA.bytes_per_pixel(), 4);
    assert_eq!(AsepriteColorDepth::Grayscale.bytes_per_pixel(), 2);
    assert_eq!(AsepriteColorDepth::Indexed.bytes_per_pixel(), 1);
}
