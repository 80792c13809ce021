//! Raw data types, as they are laid out in the file.

use vstd::prelude::*;

use crate::computed::AsepritePalette;
pub use crate::decode::read_aseprite;
use crate::error::{AsepriteError, AsepriteInvalidError};

verus! {

/// Color depth in a single file
#[derive(Debug, PartialEq, Eq, Clone, Copy)]
#[allow(missing_docs)]
pub enum AsepriteColorDepth {
    RGBA,
    Grayscale,
    Indexed,
}

impl AsepriteColorDepth {
    /// Number of bytes that one pixel of this depth takes in the file.
    pub open spec fn spec_bytes_per_pixel(self) -> nat {
        match self {
            AsepriteColorDepth::RGBA => 4,
            AsepriteColorDepth::Grayscale => 2,
            AsepriteColorDepth::Indexed => 1,
        }
    }

    /// Number of bytes that one pixel of this depth takes in the file.
    pub fn bytes_per_pixel(&self) -> (n: usize)
        ensures
            n == self.spec_bytes_per_pixel(),
    {
        match self {
            AsepriteColorDepth::RGBA => 4,
            AsepriteColorDepth::Grayscale => 2,
            AsepriteColorDepth::Indexed => 1,
        }
    }
}

/// A full RGBA color
#[allow(missing_docs)]
#[derive(Debug, Clone, Copy, PartialEq, Eq)]
pub struct AsepriteColor {
    pub red: u8,
    pub green: u8,
    pub blue: u8,
    pub alpha: u8,
}

impl AsepriteColor {
    /// The four channels in the order red, green, blue, alpha.
    pub open spec fn channels(self) -> Seq<u8> {
        seq![self.red, self.green, self.blue, self.alpha]
    }
}

/// A single pixel
#[derive(Debug, Clone, Copy, PartialEq, Eq)]
pub enum AsepritePixel {
    /// Pixel in RGBA format
    RGBA(AsepriteColor),
    /// A grayscale pixel
    Grayscale {
        /// Gray intensity
        intensity: u16,
        /// Alpha value (opacity)
        alpha: u16,
    },
    /// Indexed pixel
    Indexed(u8),
}

impl AsepritePixel {
    /// The color of a pixel under an optional palette and an optional
    /// transparent palette index.
    ///
    /// An RGBA pixel is its own color. A grayscale pixel has its intensity
    /// and its alpha halved, the halved intensity standing in all three color
    /// channels. An indexed pixel is transparent black where its index is the
    /// transparent one; otherwise it is the palette entry at its index, and an
    /// error where there is no such entry.
    pub open spec fn spec_rgba(
        self,
        palette: Option<Seq<AsepriteColor>>,
        transparent_palette: Option<u8>,
    ) -> Result<Seq<u8>, AsepriteError> {
        match self {
            AsepritePixel::RGBA(color) => Ok(color.channels()),
            AsepritePixel::Grayscale { intensity, alpha } => Ok(
                seq![
                    (intensity / 2) as u8,
                    (intensity / 2) as u8,
                    (intensity / 2) as u8,
                    (alpha / 2) as u8,
                ],
            ),
            AsepritePixel::Indexed(idx) => {
                if transparent_palette == Some(idx) {
                    Ok(seq![0u8, 0u8, 0u8, 0u8])
                } else if palette is Some && (idx as int) < palette.unwrap().len() {
                    Ok(palette.unwrap()[idx as int].channels())
                } else {
                    Err(
                        AsepriteError::InvalidConfiguration(
                            AsepriteInvalidError::InvalidPaletteIndex(idx as usize),
                        ),
                    )
                }
            },
        }
    }

    /// Get the pixel as an array of RGBA values
    pub fn get_rgba(
        &self,
        palette: Option<&AsepritePalette>,
        transparent_palette: Option<u8>,
    ) -> (res: Result<[u8; 4], AsepriteError>)
        ensures
            match res {
                Ok(rgba) => self.spec_rgba(palette_view(palette), transparent_palette) == Ok::<
                    Seq<u8>,
                    AsepriteError,
                >(rgba@),
                Err(e) => self.spec_rgba(palette_view(palette), transparent_palette) == Err::<
                    Seq<u8>,
                    AsepriteError,
                >(e),
            },
    {
        match self {
            AsepritePixel::RGBA(color) => Ok([color.red, color.green, color.blue, color.alpha]),
            AsepritePixel::Grayscale { intensity, alpha } => {
                let gray: u8 = (*intensity / 2) as u8;
                let a: u8 = (*alpha / 2) as u8;
                Ok([gray, gray, gray, a])
            },
            AsepritePixel::Indexed(idx) => {
                let transparent = match transparent_palette {
                    Some(t) => t == *idx,
                    None => false,
                };
                if transparent {
                    Ok([0, 0, 0, 0])
                } else {
                    match palette {
                        Some(p) => {
                            if (*idx as usize) < p.entries.len() {
                                let color = p.entries[*idx as usize];
                                Ok([color.red, color.green, color.blue, color.alpha])
                            } else {
                                Err(
                                    AsepriteError::InvalidConfiguration(
                                        AsepriteInvalidError::InvalidPaletteIndex(*idx as usize),
                                    ),
                                )
                            }
                        },
                        None => Err(
                            AsepriteError::InvalidConfiguration(
                                AsepriteInvalidError::InvalidPaletteIndex(*idx as usize),
                            ),
                        ),
                    }
                }
            },
        }
    }
}


/// The views of the elements of a sequence, in the same order.
pub open spec fn views<T: View>(s: Seq<T>) -> Seq<T::V> {
    Seq::new(s.len(), |i: int| s[i]@)
}

/// The characters of an optional string.
pub open spec fn text_view(text: Option<String>) -> Option<Seq<char>> {
    match text {
        Some(t) => Some(t@),
        None => None,
    }
}

/// The raw header of a file
#[derive(Debug, PartialEq, Eq, Clone, Copy)]
pub struct RawAsepriteHeader {
    /// File size of the file
    pub file_size: u32,
    /// Magic number in the file, always `0xA5E0`
    pub magic_number: u16,
    /// Amount of frames in the body of the file
    pub frames: u16,
    /// Base width
    pub width: u16,
    /// Base height
    pub height: u16,
    /// The color depth used
    pub color_depth: AsepriteColorDepth,
    /// Flags for this file
    ///
    /// - 1 = Layer opacity has a valid value
    pub flags: u32,
    /// Milliseconds between frames; superseded by the duration in each frame
    pub speed: u16,
    /// Palette entry which should be considered transparent
    ///
    /// This is only useful for indexed colors
    pub transparent_palette: u8,
    /// The amount of colors in the palette
    pub color_count: u16,
    /// Width of one pixel
    pub pixel_width: u8,
    /// Height of one pixel
    pub pixel_height: u8,
    /// Grid x start position
    pub grid_x: i16,
    /// Grid y start position
    pub grid_y: i16,
    /// Grid width
    pub grid_width: u16,
    /// Grid height
    pub grid_height: u16,
}

/// An unsigned fixed-point number with 16 integer and 16 fractional bits.
///
/// It stands for the rational number `raw / 65536`.
#[derive(Debug, PartialEq, Eq, Clone, Copy)]
pub struct AsepriteFixed {
    /// The 32 bits as they are stored
    pub raw: u32,
}

impl AsepriteFixed {
    /// The integer part of the number.
    pub open spec fn spec_whole(self) -> int {
        self.raw as int / 65536
    }

    /// The numerator of the fractional part, over 65536.
    pub open spec fn spec_fraction(self) -> int {
        self.raw as int % 65536
    }

    /// The integer part of the number.
    pub fn whole(&self) -> (w: u16)
        ensures
            w == self.spec_whole(),
    {
        (self.raw / 65536) as u16
    }

    /// The numerator of the fractional part, over 65536.
    pub fn fraction(&self) -> (f: u16)
        ensures
            f == self.spec_fraction(),
    {
        (self.raw % 65536) as u16
    }
}

/// Raw user data
#[derive(Debug, Clone)]
pub struct RawAsepriteUserData {
    /// Text, if any
    pub text: Option<String>,
    /// Color, if any
    pub color: Option<AsepriteColor>,
}

/// What a [`RawAsepriteUserData`] holds.
pub struct RawAsepriteUserDataView {
    /// Text, if any
    pub text: Option<Seq<char>>,
    /// Color, if any
    pub color: Option<AsepriteColor>,
}

impl View for RawAsepriteUserData {
    type V = RawAsepriteUserDataView;

    open spec fn view(&self) -> RawAsepriteUserDataView {
        RawAsepriteUserDataView { text: text_view(self.text), color: self.color }
    }
}

/// Layer type
#[derive(Debug, PartialEq, Eq, Clone, Copy)]
pub enum AsepriteLayerType {
    /// A normal layer
    Normal,
    /// A layer group
    Group,
}

/// The different blend modes
#[derive(Debug, PartialEq, Eq, Clone, Copy)]
#[allow(missing_docs)]
pub enum AsepriteBlendMode {
    Normal,
    Multiply,
    Screen,
    Overlay,
    Darken,
    Lighten,
    ColorDodge,
    ColorBurn,
    HardLight,
    SoftLight,
    Difference,
    Exclusion,
    Hue,
    Saturation,
    Color,
    Luminosity,
    Addition,
    Subtract,
    Divide,
}

/// Raw Cel
#[derive(Debug)]
pub enum RawAsepriteCel {
    /// Raw Cel Data
    Raw {
        /// Width in pixels
        width: u16,
        /// Height in pixels
        height: u16,
        /// The pixels themselves
        pixels: Vec<AsepritePixel>,
    },
    /// Linked Cel Data
    Linked {
        /// Frame position to link with
        frame_position: u16,
    },
    /// Compressed Cel Data
    Compressed {
        /// Width in pixels
        width: u16,
        /// Height in pixels
        height: u16,
        /// The decompressed pixels
        pixels: Vec<AsepritePixel>,
    },
}

/// What a [`RawAsepriteCel`] holds.
pub enum RawAsepriteCelView {
    /// Raw Cel Data
    Raw {
        /// Width in pixels
        width: u16,
        /// Height in pixels
        height: u16,
        /// The pixels themselves, row by row
        pixels: Seq<AsepritePixel>,
    },
    /// Linked Cel Data
    Linked {
        /// Frame position to link with
        frame_position: u16,
    },
    /// Compressed Cel Data
    Compressed {
        /// Width in pixels
        width: u16,
        /// Height in pixels
        height: u16,
        /// The decompressed pixels, row by row
        pixels: Seq<AsepritePixel>,
    },
}

impl RawAsepriteCelView {
    /// A cel that carries pixels carries one for each position of its grid.
    pub open spec fn well_formed(self) -> bool {
        match self {
            RawAsepriteCelView::Raw { width, height, pixels } => pixels.len() == width * height,
            RawAsepriteCelView::Compressed { width, height, pixels } => pixels.len() == width
                * height,
            RawAsepriteCelView::Linked { .. } => true,
        }
    }
}

impl Clone for RawAsepriteCel {
    fn clone(&self) -> (copy: RawAsepriteCel)
        ensures
            copy@ == self@,
    {
        match self {
            RawAsepriteCel::Raw { width, height, pixels } => {
                let copied = pixels.clone();
                assert(copied@ =~= pixels@);
                RawAsepriteCel::Raw { width: *width, height: *height, pixels: copied }
            },
            RawAsepriteCel::Linked { frame_position } => RawAsepriteCel::Linked {
                frame_position: *frame_position,
            },
            RawAsepriteCel::Compressed { width, height, pixels } => {
                let copied = pixels.clone();
                assert(copied@ =~= pixels@);
                RawAsepriteCel::Compressed { width: *width, height: *height, pixels: copied }
            },
        }
    }
}

impl View for RawAsepriteCel {
    type V = RawAsepriteCelView;

    open spec fn view(&self) -> RawAsepriteCelView {
        match *self {
            RawAsepriteCel::Raw { width, height, pixels } => RawAsepriteCelView::Raw {
                width,
                height,
                pixels: pixels@,
            },
            RawAsepriteCel::Linked { frame_position } => RawAsepriteCelView::Linked {
                frame_position,
            },
            RawAsepriteCel::Compressed { width, height, pixels } => RawAsepriteCelView::Compressed {
                width,
                height,
                pixels: pixels@,
            },
        }
    }
}

/// Animation Direction
#[derive(Debug, PartialEq, Eq, Clone, Copy)]
pub enum AsepriteAnimationDirection {
    /// Forward animation direction
    ///
    /// When encountering the end, starts from the beginning
    Forward,
    /// Reverse animation direction
    ///
    /// When encountering the start, starts from the end
    Reverse,
    /// Ping-Pong animation direction
    ///
    /// Starts at beginning and reverses direction whenever it hits either end or beginning
    PingPong,
}

/// A raw Tag
#[derive(Debug, Clone)]
pub struct RawAsepriteTag {
    /// Starting frame
    pub from: u16,
    /// End frame
    pub to: u16,
    /// animation direction
    pub anim_direction: AsepriteAnimationDirection,
    /// name of the tag
    pub name: String,
}

/// What a [`RawAsepriteTag`] holds.
pub struct RawAsepriteTagView {
    /// Starting frame
    pub from: u16,
    /// End frame
    pub to: u16,
    /// animation direction
    pub anim_direction: AsepriteAnimationDirection,
    /// name of the tag
    pub name: Seq<char>,
}

impl View for RawAsepriteTag {
    type V = RawAsepriteTagView;

    open spec fn view(&self) -> RawAsepriteTagView {
        RawAsepriteTagView {
            from: self.from,
            to: self.to,
            anim_direction: self.anim_direction,
            name: self.name@,
        }
    }
}

/// A raw Icc Profile
#[derive(Debug, Clone)]
pub struct RawAsepriteIccProfile {
    /// The bytes of the icc profile
    pub icc_profile: Vec<u8>,
}

/// The bytes of an optional icc profile.
pub open spec fn icc_view(profile: Option<RawAsepriteIccProfile>) -> Option<Seq<u8>> {
    match profile {
        Some(p) => Some(p.icc_profile@),
        None => None,
    }
}

/// 9-Patch slice info
#[derive(Debug, PartialEq, Eq, Clone, Copy)]
pub struct AsepriteNinePatchInfo {
    /// x center, relative to slice bounds
    pub x_center: i32,
    /// y center, relative to slice bounds
    pub y_center: i32,
    /// width of center
    pub width: u32,
    /// height of center
    pub height: u32,
}

/// A raw pivot inside a slice
#[derive(Debug, PartialEq, Eq, Clone, Copy)]
pub struct AsepritePivot {
    /// x position, relative to origin
    pub x_pivot: i32,
    /// y position, relative to origin
    pub y_pivot: i32,
}

/// Raw Slice
#[derive(Debug, PartialEq, Eq, Clone, Copy)]
pub struct RawAsepriteSlice {
    /// For which frame this slice is valid from (to the end of the animation)
    pub frame: u32,
    /// x origin, relative to the sprite
    pub x_origin: i32,
    /// y origin, relative to the sprite
    pub y_origin: i32,
    /// slice width
    ///
    /// this may be 0 if hidden from the given frame
    pub width: u32,
    /// slice height
    pub height: u32,
    /// 9-Patch info, if any
    pub nine_patch_info: Option<AsepriteNinePatchInfo>,
    /// A pivot, if any
    pub pivot: Option<AsepritePivot>,
}

/// A raw palette entry
#[derive(Debug, Clone)]
pub struct RawAsepritePaletteEntry {
    /// color of this entry
    pub color: AsepriteColor,
    /// name of this entry
    pub name: Option<String>,
}

/// What a [`RawAsepritePaletteEntry`] holds.
pub struct RawAsepritePaletteEntryView {
    /// color of this entry
    pub color: AsepriteColor,
    /// name of this entry
    pub name: Option<Seq<char>>,
}

impl View for RawAsepritePaletteEntry {
    type V = RawAsepritePaletteEntryView;

    open spec fn view(&self) -> RawAsepritePaletteEntryView {
        RawAsepritePaletteEntryView { color: self.color, name: text_view(self.name) }
    }
}

/// Raw Chunk
#[allow(inconsistent_fields)]
#[derive(Debug, Clone)]
pub enum RawAsepriteChunk {
    /// Layer Chunk
    ///
    /// All the layer chunks determine the general layer layout
    Layer {
        /// The flags set for this layer
        ///
        /// 1 = Visible
        /// 2 = Editable
        /// 4 = Lock Movement
        /// 8 = Background
        /// 16 = Prefer linked cels
        /// 32 = The layer group should be displayed collapsed
        /// 64 = The layer is a reference layer
        flags: u16,
        /// Type of the layer
        layer_type: AsepriteLayerType,
        /// How deep the child is in the hierarchy
        ///
        /// The higher, the deeper in the previous chunk
        layer_child: u16,
        /// layer width
        ///
        /// This is ignored
        width: u16,
        /// layer height
        ///
        /// This is ignored
        height: u16,
        /// The blend mode of the layer
        blend_mode: AsepriteBlendMode,
        /// Opacity of this layer
        opacity: u8,
        /// The name of the layer
        name: String,
    },
    /// A Cel is a container of pixel
    Cel {
        /// Which layer this cel corresponds to (0 based)
        layer_index: u16,
        /// x position
        x: i16,
        /// y position
        y: i16,
        /// Opacity of the cel
        opacity: u8,
        /// The cel content
        cel: RawAsepriteCel,
    },
    /// Extra data for the previous cel
    CelExtra {
        /// Flags for the extra cel
        ///
        /// - 1 = Precise bounds are set
        flags: u32,
        /// Precise x position
        x: AsepriteFixed,
        /// Precise y position
        y: AsepriteFixed,
        /// precise width of the cel
        width: AsepriteFixed,
        /// precise height of the cel
        height: AsepriteFixed,
    },
    /// Tags for this image
    Tags {
        /// the different tags
        tags: Vec<RawAsepriteTag>,
    },
    /// A color palette
    Palette {
        /// The total count of entries in the palette
        palette_size: u32,
        /// First color index to change
        from_color: u32,
        /// Last color index to change
        to_color: u32,
        /// The individual palette entries
        entries: Vec<RawAsepritePaletteEntry>,
    },
    /// User Data for the last chunk
    UserData {
        /// the data itself
        data: RawAsepriteUserData,
    },
    /// A slice in the image
    Slice {
        /// the flags for this slice
        flags: u32,
        /// the name of the slices
        name: String,
        /// the individual slices
        slices: Vec<RawAsepriteSlice>,
    },
    /// An embedded color profile
    ColorProfile {
        /// The type of color profile
        profile_type: u16,
        /// The flags for this color profile
        ///
        /// 1 = use the fixed gamma
        flags: u16,
        /// Fixed gamma
        gamma: AsepriteFixed,
        /// An embedded ICC Profile
        icc_profile: Option<RawAsepriteIccProfile>,
    },
}

/// What a [`RawAsepriteChunk`] holds.
#[allow(missing_docs)]
#[allow(inconsistent_fields)]
pub enum RawAsepriteChunkView {
    Layer {
        flags: u16,
        layer_type: AsepriteLayerType,
        layer_child: u16,
        width: u16,
        height: u16,
        blend_mode: AsepriteBlendMode,
        opacity: u8,
        name: Seq<char>,
    },
    Cel { layer_index: u16, x: i16, y: i16, opacity: u8, cel: RawAsepriteCelView },
    CelExtra {
        flags: u32,
        x: AsepriteFixed,
        y: AsepriteFixed,
        width: AsepriteFixed,
        height: AsepriteFixed,
    },
    Tags { tags: Seq<RawAsepriteTagView> },
    Palette {
        palette_size: u32,
        from_color: u32,
        to_color: u32,
        entries: Seq<RawAsepritePaletteEntryView>,
    },
    UserData { data: RawAsepriteUserDataView },
    Slice { flags: u32, name: Seq<char>, slices: Seq<RawAsepriteSlice> },
    ColorProfile {
        profile_type: u16,
        flags: u16,
        gamma: AsepriteFixed,
        icc_profile: Option<Seq<u8>>,
    },
}

impl RawAsepriteChunkView {
    /// A chunk is well formed where the cel in it, if any, is.
    pub open spec fn well_formed(self) -> bool {
        self matches RawAsepriteChunkView::Cel { cel, .. } ==> cel.well_formed()
    }
}

impl View for RawAsepriteChunk {
    type V = RawAsepriteChunkView;

    open spec fn view(&self) -> RawAsepriteChunkView {
        match *self {
            RawAsepriteChunk::Layer {
                flags,
                layer_type,
                layer_child,
                width,
                height,
                blend_mode,
                opacity,
                name,
            } => RawAsepriteChunkView::Layer {
                flags,
                layer_type,
                layer_child,
                width,
                height,
                blend_mode,
                opacity,
                name: name@,
            },
            RawAsepriteChunk::Cel { layer_index, x, y, opacity, cel } => RawAsepriteChunkView::Cel {
                layer_index,
                x,
                y,
                opacity,
                cel: cel@,
            },
            RawAsepriteChunk::CelExtra { flags, x, y, width, height } => {
                RawAsepriteChunkView::CelExtra { flags, x, y, width, height }
            },
            RawAsepriteChunk::Tags { tags } => RawAsepriteChunkView::Tags { tags: views(tags@) },
            RawAsepriteChunk::Palette {
                palette_size,
                from_color,
                to_color,
                entries,
            } => RawAsepriteChunkView::Palette {
                palette_size,
                from_color,
                to_color,
                entries: views(entries@),
            },
            RawAsepriteChunk::UserData { data } => RawAsepriteChunkView::UserData { data: data@ },
            RawAsepriteChunk::Slice { flags, name, slices } => RawAsepriteChunkView::Slice {
                flags,
                name: name@,
                slices: slices@,
            },
            RawAsepriteChunk::ColorProfile {
                profile_type,
                flags,
                gamma,
                icc_profile,
            } => RawAsepriteChunkView::ColorProfile {
                profile_type,
                flags,
                gamma,
                icc_profile: icc_view(icc_profile),
            },
        }
    }
}

/// A raw frame
#[derive(Debug, Clone)]
pub struct RawAsepriteFrame {
    /// The magic frame number, always `0xF1FA`
    pub magic_number: u16,
    /// Duration of this frame, in ms
    pub duration_ms: u16,
    /// The chunks in this frame
    pub chunks: Vec<RawAsepriteChunk>,
}

/// What a [`RawAsepriteFrame`] holds.
pub struct RawAsepriteFrameView {
    /// The magic frame number, always `0xF1FA`
    pub magic_number: u16,
    /// Duration of this frame, in ms
    pub duration_ms: u16,
    /// The chunks in this frame
    pub chunks: Seq<RawAsepriteChunkView>,
}

impl RawAsepriteFrameView {
    /// A frame is well formed where each of its chunks is.
    pub open spec fn well_formed(self) -> bool {
        forall|i: int| 0 <= i < self.chunks.len() ==> (#[trigger] self.chunks[i]).well_formed()
    }
}

impl View for RawAsepriteFrame {
    type V = RawAsepriteFrameView;

    open spec fn view(&self) -> RawAsepriteFrameView {
        RawAsepriteFrameView {
            magic_number: self.magic_number,
            duration_ms: self.duration_ms,
            chunks: views(self.chunks@),
        }
    }
}

/// A raw file
#[derive(Debug, Clone)]
pub struct RawAseprite {
    /// The header describes how the rest of the file is to be interpreted
    pub header: RawAsepriteHeader,
    /// A vector of frames inside the file
    pub frames: Vec<RawAsepriteFrame>,
}

/// What a [`RawAseprite`] holds.
pub struct RawAsepriteView {
    /// The header describes how the rest of the file is to be interpreted
    pub header: RawAsepriteHeader,
    /// The frames inside the file
    pub frames: Seq<RawAsepriteFrameView>,
}

impl RawAsepriteView {
    /// A file is well formed where each of its frames is.
    pub open spec fn well_formed(self) -> bool {
        forall|i: int| 0 <= i < self.frames.len() ==> (#[trigger] self.frames[i]).well_formed()
    }
}

impl View for RawAseprite {
    type V = RawAsepriteView;

    open spec fn view(&self) -> RawAsepriteView {
        RawAsepriteView { header: self.header, frames: views(self.frames@) }
    }
}

/// An indexed pixel whose index is the transparent one is fully
/// transparent, whatever the palette holds.
pub proof fn lemma_transparent_index(index: u8, palette: Option<Seq<AsepriteColor>>)
    ensures
        AsepritePixel::Indexed(index).spec_rgba(palette, Some(index)) == Ok::<
            Seq<u8>,
            AsepriteError,
        >(seq![0u8, 0u8, 0u8, 0u8]),
{
}

/// An indexed pixel whose index is not the transparent one and for which
/// there is no palette entry is an error, and no color.
pub proof fn lemma_missing_palette_entry(
    index: u8,
    palette: Option<Seq<AsepriteColor>>,
    transparent_palette: Option<u8>,
)
    requires
        transparent_palette != Some(index),
        palette matches Some(entries) ==> index >= entries.len(),
    ensures
        AsepritePixel::Indexed(index).spec_rgba(palette, transparent_palette) == Err::<
            Seq<u8>,
            AsepriteError,
        >(AsepriteError::InvalidConfiguration(AsepriteInvalidError::InvalidPaletteIndex(
            index as usize,
        ))),
{
}

/// The entries of an optional palette, as a sequence.
pub open spec fn palette_view(palette: Option<&AsepritePalette>) -> Option<Seq<AsepriteColor>> {
    match palette {
        Some(p) => Some(p.entries@),
        None => None,
    }
}

/// Whether a grid has as many positions as there are pixels.
fn grid_holds(width: u16, height: u16, pixels: usize) -> (holds: bool)
    ensures
        holds == (pixels == width * height),
{
    assert(0 <= width * height <= 0xffff * 0xffff) by (nonlinear_arith)
        requires
            0 <= width <= 0xffff,
            0 <= height <= 0xffff,
    ;
    pixels as u64 == (width as u64) * (height as u64)
}

impl RawAsepriteCel {
    /// Whether a cel that carries pixels carries one for each position of
    /// its grid.
    pub fn is_well_formed(&self) -> (well_formed: bool)
        ensures
            well_formed == self@.well_formed(),
    {
        match self {
            RawAsepriteCel::Raw { width, height, pixels } => grid_holds(
                *width,
                *height,
                pixels.len(),
            ),
            RawAsepriteCel::Compressed { width, height, pixels } => grid_holds(
                *width,
                *height,
                pixels.len(),
            ),
            RawAsepriteCel::Linked { .. } => true,
        }
    }
}

impl RawAsepriteChunk {
    /// Whether the cel in the chunk, if any, is well formed.
    pub fn is_well_formed(&self) -> (well_formed: bool)
        ensures
            well_formed == self@.well_formed(),
    {
        match self {
            RawAsepriteChunk::Cel { cel, .. } => cel.is_well_formed(),
            _ => true,
        }
    }
}

impl RawAsepriteFrame {
    /// Whether each chunk of the frame is well formed.
    pub fn is_well_formed(&self) -> (well_formed: bool)
        ensures
            well_formed == self@.well_formed(),
    {
        let mut i: usize = 0;
        while i < self.chunks.len()
            invariant
                i <= self.chunks.len(),
                forall|k: int| 0 <= k < i ==> (#[trigger] self@.chunks[k]).well_formed(),
            decreases self.chunks.len() - i,
        {
            if !self.chunks[i].is_well_formed() {
                assert(self@.chunks[i as int] == self.chunks[i as int]@);
                return false;
            }
            assert(self@.chunks[i as int] == self.chunks[i as int]@);
            i += 1;
        }
        true
    }
}

impl RawAseprite {
    /// Whether each frame of the file is well formed: whether every cel
    /// that carries pixels carries one for each position of its grid.
    pub fn is_well_formed(&self) -> (well_formed: bool)
        ensures
            well_formed == self@.well_formed(),
    {
        let mut i: usize = 0;
        while i < self.frames.len()
            invariant
                i <= self.frames.len(),
                forall|k: int| 0 <= k < i ==> (#[trigger] self@.frames[k]).well_formed(),
            decreases self.frames.len() - i,
        {
            if !self.frames[i].is_well_formed() {
                assert(self@.frames[i as int] == self.frames[i as int]@);
                return false;
            }
            assert(self@.frames[i as int] == self.frames[i as int]@);
            i += 1;
        }
        true
    }
}

} // verus!
