use aseprite_reader::error::{AsepriteError, AsepriteInvalidError};
use aseprite_reader::raw::{
    AsepriteBlendMode, AsepriteColor, AsepriteColorDepth, AsepriteLayerType, AsepritePixel,
    RawAseprite, RawAsepriteCel, RawAsepriteChunk, RawAsepriteFrame, RawAsepriteHeader,
    RawAsepritePaletteEntry,
};
use aseprite_reader::{image_for_frame, Aseprite, RasterImage};

const CLEAR: [u8; 4] = [0, 0, 0, 0];
const RED: [u8; 4] = [255, 0, 0, 255];
const GREEN: [u8; 4] = [0, 255, 0, 255];
const BLUE: [u8; 4] = [0, 0, 255, 255];

fn header(width: u16, height: u16, depth: AsepriteColorDepth) -> RawAsepriteHeader {
    RawAsepriteHeader {
        file_size: 0,
        magic_number: 0xA5E0,
        frames: 1,
        width,
        height,
        color_depth: depth,
        flags: 1,
        speed: 100,
        transparent_palette: 0,
        color_count: 0,
        pixel_width: 1,
        pixel_height: 1,
        grid_x: 0,
        grid_y: 0,
        grid_width: 16,
        grid_height: 16,
    }
}

fn layer(layer_type: AsepriteLayerType, visible: bool) -> RawAsepriteChunk {
    RawAsepriteChunk::Layer {
        flags: if visible { 1 } else { 0 },
        layer_type,
        layer_child: 0,
        width: 0,
        height: 0,
        blend_mode: AsepriteBlendMode::Normal,
        opacity: 255,
        name: "layer".to_string(),
    }
}

fn rgba(color: [u8; 4]) -> AsepritePixel {
    AsepritePixel::RGBA(AsepriteColor {
        red: color[0],
        green: color[1],
        blue: color[2],
        alpha: color[3],
    })
}

fn raw_cel(layer_index: u16, x: i16, y: i16, width: u16, height: u16, pixels: Vec<AsepritePixel>) -> RawAsepriteChunk {
    assert_eq!(pixels.len(), width as usize * height as usize);
    RawAsepriteChunk::Cel {
        layer_index,
        x,
        y,
        opacity: 255,
        cel: RawAsepriteCel::Raw { width, height, pixels },
    }
}

fn linked_cel(layer_index: u16, x: i16, y: i16, frame_position: u16) -> RawAsepriteChunk {
    RawAsepriteChunk::Cel {
        layer_index,
        x,
        y,
        opacity: 255,
        cel: RawAsepriteCel::Linked { frame_position },
    }
}

fn document(header: RawAsepriteHeader, frames: Vec<Vec<RawAsepriteChunk>>) -> Aseprite {
    let frames = frames
        .into_iter()
        .map(|chunks| RawAsepriteFrame { magic_number: 0xF1FA, duration_ms: 100, chunks })
        .collect();
    Aseprite::from_raw(RawAseprite { header, frames }).unwrap()
}

fn rows(image: &RasterImage) -> Vec<Vec<[u8; 4]>> {
    (0..image.height())
        .map(|y| (0..image.width()).map(|x| image.get_pixel(x, y)).collect())
        .collect()
}

fn invalid_frame(frame: usize) -> AsepriteError {
    AsepriteError::InvalidConfiguration(AsepriteInvalidError::InvalidFrame(frame))
}

#[test]
fn cel_is_drawn_at_its_offset() {
    let doc = document(
        header(3, 2, AsepriteColorDepth::RGBA),
        vec![vec![
            layer(AsepriteLayerType::Normal, true),
            raw_cel(0, 1, 0, 2, 2, vec![rgba(RED), rgba(GREEN), rgba(BLUE), rgba(CLEAR)]),
        ]],
    );
    let image = image_for_frame(&doc, 0).unwrap();
    assert_eq!((image.width(), image.height()), (3, 2));
    assert_eq!(rows(&image), vec![vec![CLEAR, RED, GREEN], vec![CLEAR, BLUE, CLEAR]]);
    assert_eq!(image.as_raw().len(), 24);
    assert_eq!(&image.as_raw()[4..8], &RED);
}

#[test]
fn pixels_off_the_canvas_are_left_out() {
    let nine: Vec<AsepritePixel> = (1..=9).map(|n| rgba([n, n, n, 255])).collect();
    let gray = |n: u8| [n, n, n, 255];
    // The cel sticks out at the top and at the left.
    let doc = document(
        header(2, 2, AsepriteColorDepth::RGBA),
        vec![vec![layer(AsepriteLayerType::Normal, true), raw_cel(0, -1, -2, 3, 3, nine.clone())]],
    );
    assert_eq!(
        rows(&image_for_frame(&doc, 0).unwrap()),
        vec![vec![gray(8), gray(9)], vec![CLEAR, CLEAR]]
    );
    // The cel sticks out at the bottom and at the right.
    let doc = document(
        header(2, 2, AsepriteColorDepth::RGBA),
        vec![vec![layer(AsepriteLayerType::Normal, true), raw_cel(0, 1, 1, 3, 3, nine.clone())]],
    );
    assert_eq!(
        rows(&image_for_frame(&doc, 0).unwrap()),
        vec![vec![CLEAR, CLEAR], vec![CLEAR, gray(1)]]
    );
    // The cel lies off the canvas altogether.
    for (x, y) in [(2i16, 0i16), (0, 2), (-3, 0), (0, -3), (i16::MAX, i16::MAX), (i16::MIN, i16::MIN)] {
        let doc = document(
            header(2, 2, AsepriteColorDepth::RGBA),
            vec![vec![layer(AsepriteLayerType::Normal, true), raw_cel(0, x, y, 3, 3, nine.clone())]],
        );
        assert_eq!(
            rows(&image_for_frame(&doc, 0).unwrap()),
            vec![vec![CLEAR, CLEAR], vec![CLEAR, CLEAR]]
        );
    }
}

#[test]
fn layers_are_drawn_from_the_lowest_id_up() {
    let doc = document(
        header(2, 1, AsepriteColorDepth::RGBA),
        vec![vec![
            layer(AsepriteLayerType::Normal, true),
            layer(AsepriteLayerType::Normal, true),
            raw_cel(1, 1, 0, 1, 1, vec![rgba(BLUE)]),
            raw_cel(0, 0, 0, 2, 1, vec![rgba(RED), rgba(GREEN)]),
        ]],
    );
    assert_eq!(rows(&image_for_frame(&doc, 0).unwrap()), vec![vec![RED, BLUE]]);
}

#[test]
fn invisible_layers_and_groups_are_left_out() {
    let doc = document(
        header(1, 1, AsepriteColorDepth::RGBA),
        vec![vec![
            layer(AsepriteLayerType::Normal, true),
            layer(AsepriteLayerType::Normal, false),
            layer(AsepriteLayerType::Group, true),
            raw_cel(0, 0, 0, 1, 1, vec![rgba(RED)]),
            raw_cel(1, 0, 0, 1, 1, vec![rgba(BLUE)]),
        ]],
    );
    assert_eq!(rows(&image_for_frame(&doc, 0).unwrap()), vec![vec![RED]]);
}

#[test]
fn frame_without_cels_is_transparent() {
    let doc = document(
        header(2, 2, AsepriteColorDepth::RGBA),
        vec![
            vec![layer(AsepriteLayerType::Normal, true), raw_cel(0, 0, 0, 1, 1, vec![rgba(RED)])],
            vec![],
        ],
    );
    let blank = vec![vec![CLEAR, CLEAR], vec![CLEAR, CLEAR]];
    assert_eq!(rows(&image_for_frame(&doc, 1).unwrap()), blank);
    // A frame that the document does not have is transparent too.
    assert_eq!(rows(&image_for_frame(&doc, 9).unwrap()), blank);
    assert_eq!(rows(&image_for_frame(&doc, 0).unwrap())[0][0], RED);
}

#[test]
fn empty_canvas() {
    let doc = document(header(0, 5, AsepriteColorDepth::RGBA), vec![vec![]]);
    let image = image_for_frame(&doc, 0).unwrap();
    assert_eq!((image.width(), image.height()), (0, 5));
    assert!(image.as_raw().is_empty());
}

#[test]
fn transparent_and_opaque_pixels_blend_exactly() {
    let doc = document(
        header(3, 1, AsepriteColorDepth::RGBA),
        vec![vec![
            layer(AsepriteLayerType::Normal, true),
            layer(AsepriteLayerType::Normal, true),
            raw_cel(0, 0, 0, 3, 1, vec![rgba(RED), rgba(RED), rgba(CLEAR)]),
            raw_cel(1, 0, 0, 3, 1, vec![rgba([9, 9, 9, 0]), rgba(BLUE), rgba([1, 2, 3, 255])]),
        ]],
    );
    assert_eq!(rows(&image_for_frame(&doc, 0).unwrap()), vec![vec![RED, BLUE, [1, 2, 3, 255]]]);
}

#[test]
fn half_transparent_pixel_is_mixed() {
    let doc = document(
        header(2, 1, AsepriteColorDepth::RGBA),
        vec![vec![
            layer(AsepriteLayerType::Normal, true),
            layer(AsepriteLayerType::Normal, true),
            raw_cel(0, 0, 0, 1, 1, vec![rgba([0, 0, 0, 255])]),
            raw_cel(1, 0, 0, 2, 1, vec![rgba([255, 255, 255, 128]), rgba([200, 100, 50, 128])]),
        ]],
    );
    let image = image_for_frame(&doc, 0).unwrap();
    // The mix is computed in single precision and cut off, not rounded.
    assert_eq!(image.get_pixel(0, 0), [128, 128, 128, 254]);
    // Over a transparent background the color stays and the alpha is that of the pixel.
    assert_eq!(image.get_pixel(1, 0), [200, 100, 50, 128]);
}

#[test]
fn linked_cel_shows_the_pixels_of_its_target_at_its_own_place() {
    let doc = document(
        header(2, 1, AsepriteColorDepth::RGBA),
        vec![
            vec![layer(AsepriteLayerType::Normal, true), raw_cel(0, 0, 0, 1, 1, vec![rgba(GREEN)])],
            vec![linked_cel(0, 1, 0, 0)],
        ],
    );
    assert_eq!(rows(&image_for_frame(&doc, 0).unwrap()), vec![vec![GREEN, CLEAR]]);
    assert_eq!(rows(&image_for_frame(&doc, 1).unwrap()), vec![vec![CLEAR, GREEN]]);
}

#[test]
fn cel_linked_to_a_linked_cel_is_an_error() {
    let doc = document(
        header(1, 1, AsepriteColorDepth::RGBA),
        vec![
            vec![layer(AsepriteLayerType::Normal, true), raw_cel(0, 0, 0, 1, 1, vec![rgba(GREEN)])],
            vec![linked_cel(0, 0, 0, 0)],
            vec![linked_cel(0, 0, 0, 1)],
        ],
    );
    assert!(image_for_frame(&doc, 1).is_ok());
    assert_eq!(image_for_frame(&doc, 2).unwrap_err(), invalid_frame(0));
}

#[test]
fn cel_linked_to_a_missing_cel_is_an_error() {
    let doc = document(
        header(1, 1, AsepriteColorDepth::RGBA),
        vec![vec![layer(AsepriteLayerType::Normal, true), linked_cel(0, 0, 0, 5)]],
    );
    assert_eq!(image_for_frame(&doc, 0).unwrap_err(), invalid_frame(5));
    // A cel may be linked to itself: that is a link to a linked cel.
    let doc = document(
        header(1, 1, AsepriteColorDepth::RGBA),
        vec![vec![layer(AsepriteLayerType::Normal, true), linked_cel(0, 0, 0, 0)]],
    );
    assert_eq!(image_for_frame(&doc, 0).unwrap_err(), invalid_frame(0));
    // A link on an invisible layer is not followed.
    let doc = document(
        header(1, 1, AsepriteColorDepth::RGBA),
        vec![vec![layer(AsepriteLayerType::Normal, false), linked_cel(0, 0, 0, 5)]],
    );
    assert!(image_for_frame(&doc, 0).is_ok());
}

fn palette_chunk(colors: &[[u8; 4]]) -> RawAsepriteChunk {
    RawAsepriteChunk::Palette {
        palette_size: colors.len() as u32,
        from_color: 0,
        to_color: colors.len() as u32 - 1,
        entries: colors
            .iter()
            .map(|c| RawAsepritePaletteEntry {
                color: AsepriteColor { red: c[0], green: c[1], blue: c[2], alpha: c[3] },
                name: None,
            })
            .collect(),
    }
}

#[test]
fn indexed_pixels_take_palette_colors() {
    let doc = document(
        header(3, 1, AsepriteColorDepth::Indexed),
        vec![vec![
            palette_chunk(&[RED, GREEN, BLUE]),
            layer(AsepriteLayerType::Normal, true),
            raw_cel(
                0,
                0,
                0,
                3,
                1,
                vec![AsepritePixel::Indexed(2), AsepritePixel::Indexed(0), AsepritePixel::Indexed(1)],
            ),
        ]],
    );
    // Index 0 is the transparent one of the header.
    assert_eq!(rows(&image_for_frame(&doc, 0).unwrap()), vec![vec![BLUE, CLEAR, GREEN]]);
}

#[test]
fn index_without_palette_entry_is_an_error() {
    let invalid = |index: usize| {
        AsepriteError::InvalidConfiguration(AsepriteInvalidError::InvalidPaletteIndex(index))
    };
    let cel = |x: i16| {
        raw_cel(
            0,
            x,
            0,
            2,
            2,
            vec![
                AsepritePixel::Indexed(1),
                AsepritePixel::Indexed(9),
                AsepritePixel::Indexed(8),
                AsepritePixel::Indexed(7),
            ],
        )
    };
    let doc = document(
        header(2, 2, AsepriteColorDepth::Indexed),
        vec![vec![palette_chunk(&[RED, GREEN]), layer(AsepriteLayerType::Normal, true), cel(0)]],
    );
    // The left column is drawn first, from the top: index 8 stands below index 1.
    assert_eq!(image_for_frame(&doc, 0).unwrap_err(), invalid(8));
    // Pixels that fall off the canvas are not resolved.
    let doc = document(
        header(2, 2, AsepriteColorDepth::Indexed),
        vec![vec![palette_chunk(&[RED, GREEN]), layer(AsepriteLayerType::Normal, true), cel(-1)]],
    );
    assert_eq!(image_for_frame(&doc, 0).unwrap_err(), invalid(9));
    let doc = document(
        header(2, 2, AsepriteColorDepth::Indexed),
        vec![vec![palette_chunk(&[RED, GREEN]), layer(AsepriteLayerType::Normal, true), cel(2)]],
    );
    assert!(image_for_frame(&doc, 0).is_ok());
    // Without a palette every index but the transparent one is an error.
    let doc = document(
        header(2, 2, AsepriteColorDepth::Indexed),
        vec![vec![layer(AsepriteLayerType::Normal, true), cel(0)]],
    );
    assert_eq!(image_for_frame(&doc, 0).unwrap_err(), invalid(1));
}

#[test]
fn grayscale_pixels_are_halved() {
    let doc = document(
        header(1, 1, AsepriteColorDepth::Grayscale),
        vec![vec![
            layer(AsepriteLayerType::Normal, true),
            raw_cel(0, 0, 0, 1, 1, vec![AsepritePixel::Grayscale { intensity: 200, alpha: 510 }]),
        ]],
    );
    assert_eq!(rows(&image_for_frame(&doc, 0).unwrap()), vec![vec![[100, 100, 100, 255]]]);
}

#[test]
fn frame_ranges_give_their_images_in_order() {
    let doc = document(
        header(1, 1, AsepriteColorDepth::RGBA),
        vec![
            vec![layer(AsepriteLayerType::Normal, true), raw_cel(0, 0, 0, 1, 1, vec![rgba(RED)])],
            vec![raw_cel(0, 0, 0, 1, 1, vec![rgba(GREEN)])],
            vec![raw_cel(0, 0, 0, 1, 1, vec![rgba(BLUE)])],
            vec![linked_cel(0, 0, 0, 9)],
        ],
    );
    let frames = doc.frames();
    assert_eq!(frames.count(), 4);
    let images = frames.get_for(&(1..3)).get_images().unwrap();
    assert_eq!(images.len(), 2);
    assert_eq!(images[0].get_pixel(0, 0), GREEN);
    assert_eq!(images[1].get_pixel(0, 0), BLUE);
    assert!(frames.get_for(&(2..2)).get_images().unwrap().is_empty());
    assert!(frames.get_for(&(3..1)).get_images().unwrap().is_empty());
    assert_eq!(frames.get_for(&(0..4)).get_images().unwrap_err(), invalid_frame(9));
    let infos = frames.get_for(&(1..3)).get_infos().unwrap();
    assert_eq!(infos.len(), 2);
    assert_eq!(infos[0].delay_ms, 100);
}

#[test]
fn copy_of_a_document_gives_the_same_images() {
    let doc = document(
        header(2, 2, AsepriteColorDepth::Indexed),
        vec![
            vec![
                palette_chunk(&[RED, GREEN, BLUE]),
                layer(AsepriteLayerType::Normal, true),
                layer(AsepriteLayerType::Group, true),
                raw_cel(
                    0,
                    0,
                    0,
                    2,
                    2,
                    vec![
                        AsepritePixel::Indexed(1),
                        AsepritePixel::Indexed(2),
                        AsepritePixel::Indexed(0),
                        AsepritePixel::Indexed(1),
                    ],
                ),
            ],
            vec![linked_cel(0, 1, 1, 0)],
        ],
    );
    let copy = doc.clone();
    assert_eq!(copy.frames().count(), 2);
    assert_eq!(copy.layers().get_by_id(1).unwrap().name(), "layer");
    for frame in 0..3 {
        assert_eq!(
            rows(&image_for_frame(&copy, frame).unwrap()),
            rows(&image_for_frame(&doc, frame).unwrap())
        );
    }
    assert_eq!(
        rows(&image_for_frame(&copy, 0).unwrap()),
        vec![vec![GREEN, BLUE], vec![CLEAR, GREEN]]
    );
    assert_eq!(
        rows(&image_for_frame(&copy, 1).unwrap()),
        vec![vec![CLEAR, CLEAR], vec![CLEAR, GREEN]]
    );
}
