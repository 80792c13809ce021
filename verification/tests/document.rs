use aseprite_reader::error::{AsepriteError, AsepriteInvalidError, AsepriteParseError, ReadErrorKind};
use aseprite_reader::raw::{
    AsepriteAnimationDirection, AsepriteBlendMode, AsepriteColor, AsepriteColorDepth,
    AsepriteFixed, AsepriteLayerType, AsepriteNinePatchInfo, AsepritePivot, AsepritePixel,
    RawAseprite,
    RawAsepriteCel, RawAsepriteChunk, RawAsepriteFrame, RawAsepriteHeader, RawAsepritePaletteEntry,
    RawAsepriteSlice, RawAsepriteTag, RawAsepriteUserData,
};
use aseprite_reader::{Aseprite, AsepriteInfo, AsepriteLayer, AsepritePalette};

fn header(depth: AsepriteColorDepth, flags: u32) -> RawAsepriteHeader {
    RawAsepriteHeader {
        file_size: 0,
        magic_number: 0xA5E0,
        frames: 1,
        width: 4,
        height: 3,
        color_depth: depth,
        flags,
        speed: 100,
        transparent_palette: 7,
        color_count: 0,
        pixel_width: 1,
        pixel_height: 1,
        grid_x: 0,
        grid_y: 0,
        grid_width: 16,
        grid_height: 16,
    }
}

fn layer(name: &str, layer_type: AsepriteLayerType, flags: u16, opacity: u8) -> RawAsepriteChunk {
    RawAsepriteChunk::Layer {
        flags,
        layer_type,
        layer_child: 1,
        width: 0,
        height: 0,
        blend_mode: AsepriteBlendMode::Screen,
        opacity,
        name: name.to_string(),
    }
}

fn cel(layer_index: u16) -> RawAsepriteChunk {
    RawAsepriteChunk::Cel {
        layer_index,
        x: 1,
        y: -1,
        opacity: 255,
        cel: RawAsepriteCel::Raw {
            width: 1,
            height: 1,
            pixels: vec![AsepritePixel::Indexed(3)],
        },
    }
}

fn tag(name: &str, from: u16, to: u16, direction: AsepriteAnimationDirection) -> RawAsepriteTag {
    RawAsepriteTag { from, to, anim_direction: direction, name: name.to_string() }
}

fn frame(duration_ms: u16, chunks: Vec<RawAsepriteChunk>) -> RawAsepriteFrame {
    RawAsepriteFrame { magic_number: 0xF1FA, duration_ms, chunks }
}

fn invalid_layer(id: usize) -> AsepriteError {
    AsepriteError::InvalidConfiguration(AsepriteInvalidError::InvalidLayer(id))
}

#[test]
fn layers_get_ids_in_order() {
    let raw = RawAseprite {
        header: header(AsepriteColorDepth::RGBA, 1),
        frames: vec![
            frame(
                10,
                vec![
                    layer("bottom", AsepriteLayerType::Normal, 1, 200),
                    layer("group", AsepriteLayerType::Group, 0, 100),
                ],
            ),
            frame(20, vec![layer("top", AsepriteLayerType::Normal, 3, 50)]),
        ],
    };
    let doc = Aseprite::from_raw(raw).unwrap();
    let layers = doc.layers();
    for (id, name) in ["bottom", "group", "top"].iter().enumerate() {
        let found = layers.get_by_id(id).unwrap();
        assert_eq!(found.id(), id);
        assert_eq!(found.name(), *name);
        assert_eq!(layers.get_by_name(name).unwrap().id(), id);
    }
    assert!(layers.get_by_id(3).is_none());
    assert!(layers.get_by_name("missing").is_none());
    assert!(layers.get_by_id(0).unwrap().is_visible());
    assert!(!layers.get_by_id(1).unwrap().is_visible());
    assert!(layers.get_by_id(2).unwrap().is_visible());
    assert!(!layers.get_by_id(0).unwrap().is_group());
    assert!(layers.get_by_id(1).unwrap().is_group());
    match layers.get_by_id(0).unwrap() {
        AsepriteLayer::Normal { opacity, child_level, blend_mode, cels, .. } => {
            assert_eq!(*opacity, Some(200));
            assert_eq!(*child_level, 1);
            assert_eq!(*blend_mode, AsepriteBlendMode::Screen);
            assert!(cels.is_empty());
        }
        other => panic!("not a normal layer: {:?}", other),
    }
    assert_eq!(doc.frames().count(), 2);
    let delays: Vec<usize> = doc.frame_infos().iter().map(|info| info.delay_ms).collect();
    assert_eq!(delays, vec![10, 20]);
}

#[test]
fn layers_of_one_name_are_found_lowest_first() {
    let raw = RawAseprite {
        header: header(AsepriteColorDepth::RGBA, 1),
        frames: vec![frame(
            10,
            vec![
                layer("a", AsepriteLayerType::Normal, 1, 1),
                layer("same", AsepriteLayerType::Group, 1, 2),
                layer("same", AsepriteLayerType::Normal, 1, 3),
            ],
        )],
    };
    let doc = Aseprite::from_raw(raw).unwrap();
    assert_eq!(doc.layers().get_by_name("same").unwrap().id(), 1);
}

#[test]
fn layer_opacity_needs_the_header_flag() {
    for (flags, expected) in [(0u32, None), (1, Some(9u8)), (2, None), (3, Some(9))] {
        let raw = RawAseprite {
            header: header(AsepriteColorDepth::RGBA, flags),
            frames: vec![frame(1, vec![layer("l", AsepriteLayerType::Normal, 1, 9)])],
        };
        let doc = Aseprite::from_raw(raw).unwrap();
        match doc.layers().get_by_id(0).unwrap() {
            AsepriteLayer::Normal { opacity, .. } => assert_eq!(*opacity, expected),
            other => panic!("not a normal layer: {:?}", other),
        }
    }
}

#[test]
fn cels_go_to_their_layer_and_frame() {
    let raw = RawAseprite {
        header: header(AsepriteColorDepth::Indexed, 1),
        frames: vec![
            frame(
                10,
                vec![
                    layer("a", AsepriteLayerType::Normal, 1, 255),
                    layer("b", AsepriteLayerType::Normal, 1, 255),
                    cel(1),
                ],
            ),
            frame(10, vec![cel(0), cel(1)]),
            frame(10, vec![cel(0), cel(0)]),
        ],
    };
    assert!(raw.is_well_formed());
    let doc = Aseprite::from_raw(raw).unwrap();
    let layers = doc.layers();
    assert_eq!(layers.get_by_id(0).unwrap().cel_count(), 2);
    assert_eq!(layers.get_by_id(1).unwrap().cel_count(), 2);
    match layers.get_by_id(0).unwrap() {
        AsepriteLayer::Normal { cels, .. } => {
            let mut frames: Vec<usize> = cels.keys().copied().collect();
            frames.sort();
            assert_eq!(frames, vec![1, 2]);
        }
        other => panic!("not a normal layer: {:?}", other),
    }
    match layers.get_by_id(1).unwrap() {
        AsepriteLayer::Normal { cels, .. } => {
            let mut frames: Vec<usize> = cels.keys().copied().collect();
            frames.sort();
            assert_eq!(frames, vec![0, 1]);
        }
        other => panic!("not a normal layer: {:?}", other),
    }
}

#[test]
fn cel_on_undeclared_layer_is_invalid() {
    let raw = RawAseprite {
        header: header(AsepriteColorDepth::Indexed, 1),
        frames: vec![frame(10, vec![layer("a", AsepriteLayerType::Normal, 1, 255), cel(1)])],
    };
    assert_eq!(Aseprite::from_raw(raw).unwrap_err(), invalid_layer(1));
    // The layer has to be declared before the cel.
    let raw = RawAseprite {
        header: header(AsepriteColorDepth::Indexed, 1),
        frames: vec![frame(10, vec![cel(0), layer("a", AsepriteLayerType::Normal, 1, 255)])],
    };
    assert_eq!(Aseprite::from_raw(raw).unwrap_err(), invalid_layer(0));
    let raw = RawAseprite {
        header: header(AsepriteColorDepth::Indexed, 1),
        frames: vec![frame(10, vec![cel(65535)])],
    };
    assert_eq!(Aseprite::from_raw(raw).unwrap_err(), invalid_layer(65535));
}

#[test]
fn cel_on_group_is_invalid() {
    let raw = RawAseprite {
        header: header(AsepriteColorDepth::Indexed, 1),
        frames: vec![frame(
            10,
            vec![
                layer("a", AsepriteLayerType::Normal, 1, 255),
                layer("g", AsepriteLayerType::Group, 1, 255),
                cel(0),
                cel(1),
                cel(9),
            ],
        )],
    };
    assert_eq!(Aseprite::from_raw(raw).unwrap_err(), invalid_layer(1));
}

fn invalid_frame(frame: usize) -> AsepriteError {
    AsepriteError::InvalidConfiguration(AsepriteInvalidError::InvalidFrame(frame))
}

/// A document of `frame_count` frames, the first of which declares tags.
fn tagged(frame_count: usize, tags: Vec<RawAsepriteTag>) -> RawAseprite {
    let mut frames = vec![frame(10, vec![RawAsepriteChunk::Tags { tags }])];
    while frames.len() < frame_count {
        frames.push(frame(10, vec![]));
    }
    RawAseprite { header: header(AsepriteColorDepth::RGBA, 1), frames }
}

#[test]
fn tags_by_name_and_last_wins() {
    let raw = RawAseprite {
        header: header(AsepriteColorDepth::RGBA, 1),
        frames: vec![
            frame(
                10,
                vec![RawAsepriteChunk::Tags {
                    tags: vec![
                        tag("walk", 0, 3, AsepriteAnimationDirection::Forward),
                        tag("run", 4, 4, AsepriteAnimationDirection::Reverse),
                        tag("walk", 1, 2, AsepriteAnimationDirection::PingPong),
                    ],
                }],
            ),
            frame(
                10,
                vec![RawAsepriteChunk::Tags {
                    tags: vec![tag("end", 2, 5, AsepriteAnimationDirection::Forward)],
                }],
            ),
            frame(10, vec![]),
            frame(10, vec![]),
            frame(10, vec![]),
            frame(10, vec![]),
        ],
    };
    let doc = Aseprite::from_raw(raw).unwrap();
    let tags = doc.tags();
    let walk = tags.get_by_name("walk").unwrap();
    assert_eq!(walk.frames, 1..3);
    assert_eq!(walk.animation_direction, AsepriteAnimationDirection::PingPong);
    assert_eq!(walk.name, "walk");
    let run = tags.get_by_name("run").unwrap();
    assert_eq!(run.frames, 4..5);
    assert_eq!(run.animation_direction, AsepriteAnimationDirection::Reverse);
    // The last frame of the document can be the last frame of a tag.
    assert_eq!(tags.get_by_name("end").unwrap().frames, 2..6);
    assert!(tags.get_by_name("Walk").is_none());
    assert_eq!(tags["run"].frames, 4..5);
    assert_eq!(tags["walk"].name, "walk");
    let mut names: Vec<&str> = tags.all().iter().map(|tag| tag.name.as_str()).collect();
    names.sort();
    assert_eq!(names, vec!["end", "run", "walk"]);
}

#[test]
fn tag_past_the_last_frame_is_invalid() {
    let forward = AsepriteAnimationDirection::Forward;
    assert!(Aseprite::from_raw(tagged(3, vec![tag("t", 0, 2, forward)])).is_ok());
    assert_eq!(
        Aseprite::from_raw(tagged(3, vec![tag("t", 0, 3, forward)])).unwrap_err(),
        invalid_frame(3)
    );
    assert_eq!(
        Aseprite::from_raw(tagged(1, vec![tag("t", 9, 65535, forward)])).unwrap_err(),
        invalid_frame(65535)
    );
    // The first tag that is wrong is reported, and the tags before it do not help.
    assert_eq!(
        Aseprite::from_raw(tagged(
            2,
            vec![tag("a", 0, 1, forward), tag("b", 1, 7, forward), tag("c", 0, 9, forward)],
        ))
        .unwrap_err(),
        invalid_frame(7)
    );
    // A tag counts against all frames of the document, also those that follow it.
    let raw = RawAseprite {
        header: header(AsepriteColorDepth::RGBA, 1),
        frames: vec![
            frame(10, vec![]),
            frame(10, vec![RawAsepriteChunk::Tags { tags: vec![tag("t", 1, 2, forward)] }]),
            frame(10, vec![]),
        ],
    };
    assert_eq!(Aseprite::from_raw(raw).unwrap().tags()["t"].frames, 1..3);
}

#[test]
fn tag_that_ends_before_it_starts_is_invalid() {
    let reverse = AsepriteAnimationDirection::Reverse;
    assert_eq!(
        Aseprite::from_raw(tagged(6, vec![tag("t", 3, 2, reverse)])).unwrap_err(),
        invalid_frame(2)
    );
    assert_eq!(
        Aseprite::from_raw(tagged(6, vec![tag("t", 1, 0, reverse)])).unwrap_err(),
        invalid_frame(0)
    );
    assert_eq!(Aseprite::from_raw(tagged(6, vec![tag("t", 3, 3, reverse)])).unwrap().tags()["t"].frames, 3..4);
}

#[test]
fn tag_that_ends_on_the_greatest_frame_number_is_invalid() {
    let forward = AsepriteAnimationDirection::Forward;
    // No range of frames ends behind frame 65535.
    assert_eq!(
        Aseprite::from_raw(tagged(65537, vec![tag("t", 9, 65535, forward)])).unwrap_err(),
        invalid_frame(65535)
    );
    let doc = Aseprite::from_raw(tagged(65537, vec![tag("t", 9, 65534, forward)])).unwrap();
    assert_eq!(doc.tags()["t"].frames, 9..65535);
}

#[test]
fn assembled_tags_lie_within_the_frames() {
    let directions = [
        AsepriteAnimationDirection::Forward,
        AsepriteAnimationDirection::Reverse,
        AsepriteAnimationDirection::PingPong,
    ];
    for frame_count in 1..5usize {
        for from in 0..6u16 {
            for to in 0..6u16 {
                let direction = directions[usize::from(from + to) % 3];
                match Aseprite::from_raw(tagged(frame_count, vec![tag("t", from, to, direction)])) {
                    Ok(doc) => {
                        let frames = doc.tags()["t"].frames.clone();
                        assert_eq!(frames, from..to + 1);
                        assert!(frames.start < frames.end);
                        assert!(usize::from(frames.end) <= frame_count);
                    }
                    Err(error) => {
                        assert!(from > to || usize::from(to) >= frame_count);
                        assert_eq!(error, invalid_frame(usize::from(to)));
                    }
                }
            }
        }
    }
}

#[test]
fn slices_by_name_and_last_wins() {
    let slice = |frame: u32, x: i32, nine: Option<AsepriteNinePatchInfo>| RawAsepriteSlice {
        frame,
        x_origin: x,
        y_origin: -2,
        width: 10,
        height: 20,
        nine_patch_info: nine,
        pivot: nine.map(|_| AsepritePivot { x_pivot: 4, y_pivot: -5 }),
    };
    let nine = AsepriteNinePatchInfo { x_center: 1, y_center: 2, width: 3, height: 4 };
    let raw = RawAseprite {
        header: header(AsepriteColorDepth::RGBA, 1),
        frames: vec![frame(
            10,
            vec![
                RawAsepriteChunk::Slice {
                    flags: 0,
                    name: "a".to_string(),
                    slices: vec![slice(0, 1, None), slice(0x1_0002, 2, Some(nine))],
                },
                RawAsepriteChunk::Slice { flags: 0, name: "none".to_string(), slices: vec![] },
                RawAsepriteChunk::Slice {
                    flags: 0,
                    name: "b".to_string(),
                    slices: vec![slice(5, 3, None)],
                },
            ],
        )],
    };
    let doc = Aseprite::from_raw(raw).unwrap();
    let slices = doc.slices();
    let a = slices.get_by_name("a").unwrap();
    assert_eq!(a.name, "a");
    assert_eq!(a.valid_frame, 2);
    assert_eq!(a.position_x, 2);
    assert_eq!(a.position_y, -2);
    assert_eq!((a.width, a.height), (10, 20));
    assert_eq!(a.nine_patch_info, Some(nine));
    assert_eq!(a.pivot, Some(AsepritePivot { x_pivot: 4, y_pivot: -5 }));
    assert_eq!(slices.get_by_name("b").unwrap().valid_frame, 5);
    assert_eq!(slices.get_by_name("b").unwrap().pivot, None);
    assert!(slices.get_by_name("none").is_none());
    let mut names: Vec<&str> = slices.get_all().iter().map(|s| s.name.as_str()).collect();
    names.sort();
    assert_eq!(names, vec!["a", "b"]);
}

#[test]
fn palette_from_raw_fills_the_range() {
    let entry = |n: u8| RawAsepritePaletteEntry {
        color: AsepriteColor { red: n, green: n, blue: n, alpha: 255 },
        name: None,
    };
    let blank = AsepriteColor { red: 0, green: 0, blue: 0, alpha: 0 };
    let palette = AsepritePalette::from_raw(5, 1, vec![entry(1), entry(2)]);
    assert_eq!(palette.entries, vec![blank, entry(1).color, entry(2).color, blank, blank]);
    // Entries that reach past the palette are left out.
    let palette = AsepritePalette::from_raw(3, 2, vec![entry(1), entry(2)]);
    assert_eq!(palette.entries, vec![blank, blank, entry(1).color]);
    let palette = AsepritePalette::from_raw(2, 2, vec![entry(1)]);
    assert_eq!(palette.entries, vec![blank, blank]);
    let palette = AsepritePalette::from_raw(2, 7, vec![entry(1)]);
    assert_eq!(palette.entries, vec![blank, blank]);
    let palette = AsepritePalette::from_raw(0, 0, vec![entry(1)]);
    assert!(palette.entries.is_empty());
    let palette = AsepritePalette::from_raw(2, 0, vec![]);
    assert_eq!(palette.entries, vec![blank, blank]);
}

#[test]
fn info_keeps_all_but_the_layers() {
    let entry = RawAsepritePaletteEntry {
        color: AsepriteColor { red: 1, green: 2, blue: 3, alpha: 4 },
        name: Some("c".to_string()),
    };
    let chunks = vec![
        layer("a", AsepriteLayerType::Normal, 1, 255),
        RawAsepriteChunk::Palette { palette_size: 1, from_color: 0, to_color: 0, entries: vec![entry] },
        RawAsepriteChunk::Tags { tags: vec![tag("t", 0, 0, AsepriteAnimationDirection::Forward)] },
        RawAsepriteChunk::UserData {
            data: RawAsepriteUserData { text: Some("x".to_string()), color: None },
        },
        RawAsepriteChunk::CelExtra {
            flags: 0,
            x: AsepriteFixed { raw: 1 },
            y: AsepriteFixed { raw: 2 },
            width: AsepriteFixed { raw: 3 },
            height: AsepriteFixed { raw: 4 },
        },
        RawAsepriteChunk::ColorProfile {
            profile_type: 1,
            flags: 0,
            gamma: AsepriteFixed { raw: 0 },
            icc_profile: None,
        },
    ];
    let indexed = RawAseprite {
        header: header(AsepriteColorDepth::Indexed, 1),
        frames: vec![frame(33, chunks.clone())],
    };
    let info: AsepriteInfo = Aseprite::from_raw(indexed).unwrap().into();
    assert_eq!(info.dimensions, (4, 3));
    assert_eq!(info.frame_count, 1);
    assert_eq!(info.transparent_palette, Some(7));
    assert_eq!(info.frame_infos.len(), 1);
    assert_eq!(info.frame_infos[0].delay_ms, 33);
    assert_eq!(
        info.palette.unwrap().entries,
        vec![AsepriteColor { red: 1, green: 2, blue: 3, alpha: 4 }]
    );
    assert_eq!(info.tags.len(), 1);
    assert_eq!(info.tags.get("t").unwrap().frames, 0..1);
    assert_eq!(info.slices.len(), 0);

    for depth in [AsepriteColorDepth::RGBA, AsepriteColorDepth::Grayscale] {
        let raw = RawAseprite { header: header(depth, 1), frames: vec![frame(33, chunks.clone())] };
        let info = Aseprite::from_raw(raw).unwrap().into_info();
        assert_eq!(info.transparent_palette, None);
    }
}

#[test]
fn from_bytes_decodes_and_assembles() {
    let mut bytes = vec![0u8; 128];
    bytes[4] = 0xE0;
    bytes[5] = 0xA5;
    bytes[8] = 2;
    bytes[10] = 2;
    bytes[12] = 32;
    bytes[14] = 1;
    bytes.extend_from_slice(&16u32.to_le_bytes());
    bytes.extend_from_slice(&[0xFA, 0xF1, 0, 0, 77, 0, 0, 0, 0, 0, 0, 0]);
    let doc = Aseprite::from_bytes(&bytes).unwrap();
    assert_eq!(doc.frames().count(), 1);
    assert_eq!(doc.frame_infos()[0].delay_ms, 77);
    assert!(doc.canvas_fits());

    assert_eq!(
        Aseprite::from_bytes(&bytes[..130]).unwrap_err(),
        AsepriteError::Parse(AsepriteParseError::Generic { kind: ReadErrorKind::Eof })
    );
    bytes[5] = 0;
    assert_eq!(
        Aseprite::from_bytes(&bytes).unwrap_err(),
        AsepriteError::Parse(AsepriteParseError::Generic { kind: ReadErrorKind::Tag })
    );
}

#[test]
fn well_formed_cels_have_a_pixel_for_each_position() {
    let cel = |width: u16, height: u16, count: usize| RawAsepriteCel::Raw {
        width,
        height,
        pixels: vec![AsepritePixel::Indexed(0); count],
    };
    assert!(cel(2, 3, 6).is_well_formed());
    assert!(cel(0, 3, 0).is_well_formed());
    assert!(!cel(2, 3, 5).is_well_formed());
    assert!(!cel(2, 3, 7).is_well_formed());
    assert!(RawAsepriteCel::Linked { frame_position: 9 }.is_well_formed());
    assert!(!RawAsepriteCel::Compressed { width: 1, height: 1, pixels: vec![] }.is_well_formed());
    let chunk = |cel: RawAsepriteCel| RawAsepriteChunk::Cel { layer_index: 0, x: 0, y: 0, opacity: 0, cel };
    let raw = RawAseprite {
        header: header(AsepriteColorDepth::Indexed, 1),
        frames: vec![
            frame(1, vec![layer("a", AsepriteLayerType::Normal, 1, 1), chunk(cel(1, 1, 1))]),
            frame(1, vec![chunk(cel(1, 2, 1))]),
        ],
    };
    assert!(raw.frames[0].is_well_formed());
    assert!(!raw.frames[1].is_well_formed());
    assert!(!raw.is_well_formed());
}
