//! What a document holds, and how it is assembled from the frames and chunks
//! of a raw file.

use vstd::prelude::*;

use crate::decode::spec_read_aseprite;
use crate::error::{AsepriteError, AsepriteInvalidError};
use crate::raw::{
    AsepriteAnimationDirection,
    AsepriteBlendMode,
    AsepriteColor,
    AsepriteColorDepth,
    AsepriteLayerType,
    AsepriteNinePatchInfo,
    AsepritePivot,
    RawAsepriteCelView,
    RawAsepriteChunkView,
    RawAsepriteFrameView,
    RawAsepriteHeader,
    RawAsepritePaletteEntryView,
    RawAsepriteSlice,
    RawAsepriteTagView,
    RawAsepriteView,
};

verus! {

/// What an [`AsepriteTag`] holds.
pub struct AsepriteTagView {
    /// The first frame of the tag
    pub start: u16,
    /// The frame after the last frame of the tag
    pub end: u16,
    /// The direction of its animation
    pub animation_direction: AsepriteAnimationDirection,
    /// The tag name
    pub name: Seq<char>,
}

impl AsepriteTagView {
    /// Whether the tag has a frame and all its frames are frames of a
    /// document with `frame_count` frames.
    pub open spec fn within(self, frame_count: usize) -> bool {
        self.start < self.end && self.end <= frame_count
    }

    /// The tag that a raw tag stands for in a document with `frame_count`
    /// frames. The raw tag names its last frame; the tag holds the frame
    /// after it.
    ///
    /// It is an error for the last frame to stand before the first, to be
    /// no frame of the document, or to be frame 65535, after which no frame
    /// can be named; the error names the last frame.
    pub open spec fn from_raw(raw: RawAsepriteTagView, frame_count: usize) -> Result<
        AsepriteTagView,
        AsepriteError,
    > {
        if raw.from > raw.to || raw.to >= frame_count || raw.to == u16::MAX {
            Err(
                AsepriteError::InvalidConfiguration(
                    AsepriteInvalidError::InvalidFrame(raw.to as usize),
                ),
            )
        } else {
            Ok(
                AsepriteTagView {
                    start: raw.from,
                    end: (raw.to + 1) as u16,
                    animation_direction: raw.anim_direction,
                    name: raw.name,
                },
            )
        }
    }
}

/// What an [`AsepriteSlice`] holds.
pub struct AsepriteSliceView {
    /// The slice name
    pub name: Seq<char>,
    /// The frame from which it is valid
    pub valid_frame: u16,
    /// The slice's x position
    pub position_x: i32,
    /// The slice's y position
    pub position_y: i32,
    /// The slice's width
    pub width: u32,
    /// The slice's height
    pub height: u32,
    /// Nine-Patch Info if it exists
    pub nine_patch_info: Option<AsepriteNinePatchInfo>,
    /// The pivot if it exists
    pub pivot: Option<AsepritePivot>,
}

impl AsepriteSliceView {
    /// The slice that a raw slice of a slice chunk stands for. Of the frame
    /// number the low 16 bits are kept.
    pub open spec fn from_raw(name: Seq<char>, raw: RawAsepriteSlice) -> AsepriteSliceView {
        AsepriteSliceView {
            name,
            valid_frame: (raw.frame % 65536) as u16,
            position_x: raw.x_origin,
            position_y: raw.y_origin,
            width: raw.width,
            height: raw.height,
            nine_patch_info: raw.nine_patch_info,
            pivot: raw.pivot,
        }
    }
}

/// What an [`AsepriteCel`] holds.
pub struct AsepriteCelView {
    /// Column of the canvas in which the cel's first column stands
    pub x: i16,
    /// Row of the canvas in which the cel's first row stands
    pub y: i16,
    /// Opacity of the cel
    pub opacity: u8,
    /// The pixels, or the frame whose pixels are used
    pub raw_cel: RawAsepriteCelView,
}

/// What an [`AsepriteLayer`] holds.
pub enum AsepriteLayerView {
    /// A layer group
    Group {
        /// Name of the layer
        name: Seq<char>,
        /// Id of the layer
        id: usize,
        /// Visibility of the layer
        visible: bool,
        /// How deep it is nested in the layer hierarchy
        child_level: u16,
    },
    /// A normal layer
    Normal {
        /// Name of the layer
        name: Seq<char>,
        /// Id of the layer
        id: usize,
        /// Blend mode of this layer
        blend_mode: AsepriteBlendMode,
        /// Opacity of this layer (if enabled)
        opacity: Option<u8>,
        /// Visibility of this layer
        visible: bool,
        /// How deep it is nested in the layer hierarchy
        child_level: u16,
        /// Cels keyed by frame index
        cels: Map<usize, AsepriteCelView>,
    },
}

impl AsepriteLayerView {
    /// The layer that a layer chunk declares.
    pub open spec fn new(
        id: usize,
        name: Seq<char>,
        layer_type: AsepriteLayerType,
        visible: bool,
        blend_mode: AsepriteBlendMode,
        opacity: Option<u8>,
        child_level: u16,
    ) -> AsepriteLayerView {
        match layer_type {
            AsepriteLayerType::Normal => AsepriteLayerView::Normal {
                name,
                id,
                blend_mode,
                opacity,
                visible,
                child_level,
                cels: Map::empty(),
            },
            AsepriteLayerType::Group => AsepriteLayerView::Group { name, id, visible, child_level },
        }
    }

    /// The name of the layer
    pub open spec fn name(self) -> Seq<char> {
        match self {
            AsepriteLayerView::Group { name, .. } => name,
            AsepriteLayerView::Normal { name, .. } => name,
        }
    }

    /// The id of the layer
    pub open spec fn id(self) -> usize {
        match self {
            AsepriteLayerView::Group { id, .. } => id,
            AsepriteLayerView::Normal { id, .. } => id,
        }
    }

    /// The visibility of the layer
    pub open spec fn is_visible(self) -> bool {
        match self {
            AsepriteLayerView::Group { visible, .. } => visible,
            AsepriteLayerView::Normal { visible, .. } => visible,
        }
    }

    /// The cels of the layer by frame index; a group has none.
    pub open spec fn cels(self) -> Map<usize, AsepriteCelView> {
        match self {
            AsepriteLayerView::Group { .. } => Map::empty(),
            AsepriteLayerView::Normal { cels, .. } => cels,
        }
    }

    /// The layer with a cel put at a frame, or the error that a group gives.
    pub open spec fn add_cel(self, frame: usize, cel: AsepriteCelView) -> Result<
        AsepriteLayerView,
        AsepriteError,
    > {
        match self {
            AsepriteLayerView::Group { id, .. } => Err(
                AsepriteError::InvalidConfiguration(AsepriteInvalidError::InvalidLayer(id)),
            ),
            AsepriteLayerView::Normal {
                name,
                id,
                blend_mode,
                opacity,
                visible,
                child_level,
                cels,
            } => Ok(
                AsepriteLayerView::Normal {
                    name,
                    id,
                    blend_mode,
                    opacity,
                    visible,
                    child_level,
                    cels: cels.insert(frame, cel),
                },
            ),
        }
    }

    /// The cel at a frame, or the error that a group or a missing cel gives.
    pub open spec fn get_cel(self, frame: usize) -> Result<AsepriteCelView, AsepriteError> {
        match self {
            AsepriteLayerView::Group { id, .. } => Err(
                AsepriteError::InvalidConfiguration(AsepriteInvalidError::InvalidLayer(id)),
            ),
            AsepriteLayerView::Normal { cels, .. } => if cels.contains_key(frame) {
                Ok(cels[frame])
            } else {
                Err(AsepriteError::InvalidConfiguration(AsepriteInvalidError::InvalidFrame(frame)))
            },
        }
    }

    /// Every cel of the layer that carries pixels carries one for each
    /// position of its grid.
    pub open spec fn well_formed(self) -> bool {
        forall|frame: usize| #[trigger]
            self.cels().contains_key(frame) ==> self.cels()[frame].raw_cel.well_formed()
    }
}

/// Fully transparent black.
pub open spec fn transparent_black() -> AsepriteColor {
    AsepriteColor { red: 0, green: 0, blue: 0, alpha: 0 }
}

/// The entries of the palette that a palette chunk declares.
///
/// The palette has `palette_size` entries. The chunk's colors stand from
/// index `from_color` on, as far as the palette reaches; every other entry is
/// fully transparent black.
pub open spec fn palette_entries(
    palette_size: u32,
    from_color: u32,
    raw_entries: Seq<RawAsepritePaletteEntryView>,
) -> Seq<AsepriteColor> {
    Seq::new(
        palette_size as nat,
        |i: int|
            if from_color <= i < from_color + raw_entries.len() {
                raw_entries[i - from_color].color
            } else {
                transparent_black()
            },
    )
}

/// The tags after the tags of a tags chunk have come in, in their order. A
/// later tag replaces an earlier one of the same name. The first tag that
/// does not lie within the frames of the document ends the assembly with
/// its error.
pub open spec fn insert_tags(
    tags: Map<Seq<char>, AsepriteTagView>,
    raw_tags: Seq<RawAsepriteTagView>,
    frame_count: usize,
) -> Result<Map<Seq<char>, AsepriteTagView>, AsepriteError>
    decreases raw_tags.len(),
{
    if raw_tags.len() == 0 {
        Ok(tags)
    } else {
        match insert_tags(tags, raw_tags.drop_last(), frame_count) {
            Ok(front) => match AsepriteTagView::from_raw(raw_tags.last(), frame_count) {
                Ok(tag) => Ok(front.insert(tag.name, tag)),
                Err(e) => Err(e),
            },
            Err(e) => Err(e),
        }
    }
}

/// Once a tag has given an error, the tags after it change nothing.
pub proof fn lemma_tags_error_stays(
    tags: Map<Seq<char>, AsepriteTagView>,
    raw_tags: Seq<RawAsepriteTagView>,
    frame_count: usize,
    failed: int,
)
    requires
        0 <= failed <= raw_tags.len(),
        insert_tags(tags, raw_tags.take(failed), frame_count) is Err,
    ensures
        insert_tags(tags, raw_tags, frame_count) == insert_tags(
            tags,
            raw_tags.take(failed),
            frame_count,
        ),
    decreases raw_tags.len() - failed,
{
    if failed == raw_tags.len() {
        assert(raw_tags.take(failed) =~= raw_tags);
    } else {
        assert(raw_tags.take(failed + 1).drop_last() =~= raw_tags.take(failed));
        lemma_tags_error_stays(tags, raw_tags, frame_count, failed + 1);
    }
}

/// Tags that come in among tags that lie within the frames of a document
/// lie within its frames.
pub proof fn lemma_tags_within(
    tags: Map<Seq<char>, AsepriteTagView>,
    raw_tags: Seq<RawAsepriteTagView>,
    frame_count: usize,
)
    requires
        forall|name: Seq<char>| #[trigger] tags.contains_key(name) ==> tags[name].within(frame_count),
    ensures
        insert_tags(tags, raw_tags, frame_count) matches Ok(after) ==> forall|name: Seq<char>|
            #[trigger] after.contains_key(name) ==> after[name].within(frame_count),
    decreases raw_tags.len(),
{
    if raw_tags.len() > 0 {
        lemma_tags_within(tags, raw_tags.drop_last(), frame_count);
    }
}

/// The slices after the slices of a slice chunk have come in, in their
/// order. All of them come under the chunk's name, so the last one stays.
pub open spec fn insert_slices(
    slices: Map<Seq<char>, AsepriteSliceView>,
    name: Seq<char>,
    raw_slices: Seq<RawAsepriteSlice>,
) -> Map<Seq<char>, AsepriteSliceView>
    decreases raw_slices.len(),
{
    if raw_slices.len() == 0 {
        slices
    } else {
        insert_slices(slices, name, raw_slices.drop_last()).insert(
            name,
            AsepriteSliceView::from_raw(name, raw_slices.last()),
        )
    }
}

/// What an [`Aseprite`] holds.
pub struct AsepriteView {
    /// Width of the canvas
    pub width: u16,
    /// Height of the canvas
    pub height: u16,
    /// The tags by name
    pub tags: Map<Seq<char>, AsepriteTagView>,
    /// The slices by name
    pub slices: Map<Seq<char>, AsepriteSliceView>,
    /// The layers; the id of a layer is its place in this order
    pub layers: Seq<AsepriteLayerView>,
    /// The number of frames
    pub frame_count: usize,
    /// The palette, if a palette chunk declared one
    pub palette: Option<Seq<AsepriteColor>>,
    /// The palette index that stands for "transparent", in indexed files
    pub transparent_palette: Option<u8>,
    /// The delay of each frame in milliseconds
    pub frame_delays: Seq<usize>,
}

impl AsepriteView {
    /// The document of a file before any of its frames has been read.
    pub open spec fn empty(header: RawAsepriteHeader, frame_count: usize) -> AsepriteView {
        AsepriteView {
            width: header.width,
            height: header.height,
            tags: Map::empty(),
            slices: Map::empty(),
            layers: Seq::empty(),
            frame_count,
            palette: None,
            transparent_palette: if header.color_depth == AsepriteColorDepth::Indexed {
                Some(header.transparent_palette)
            } else {
                None
            },
            frame_delays: Seq::empty(),
        }
    }

    /// The id of each layer is its place among the layers.
    pub open spec fn ids_dense(self) -> bool {
        forall|i: int| 0 <= i < self.layers.len() ==> (#[trigger] self.layers[i]).id() == i
    }

    /// Every tag has a frame, and all its frames are frames of the document.
    pub open spec fn tags_within_frames(self) -> bool {
        forall|name: Seq<char>| #[trigger]
            self.tags.contains_key(name) ==> self.tags[name].within(self.frame_count)
    }

    /// The id of each layer is its place among the layers, every cel that
    /// carries pixels carries one for each position of its grid, every tag
    /// lies within the frames, and there is one delay for each frame.
    pub open spec fn well_formed(self) -> bool {
        &&& self.parts_well_formed()
        &&& self.frame_delays.len() == self.frame_count
    }

    /// The document after a cel chunk of the given frame.
    ///
    /// The cel goes to the layer that it names. It is an error for it to
    /// name a layer that no layer chunk has declared yet, or a group.
    pub open spec fn with_cel(self, frame: usize, layer_index: u16, cel: AsepriteCelView) -> Result<
        AsepriteView,
        AsepriteError,
    > {
        if layer_index >= self.layers.len() {
            Err(
                AsepriteError::InvalidConfiguration(
                    AsepriteInvalidError::InvalidLayer(layer_index as usize),
                ),
            )
        } else {
            match self.layers[layer_index as int].add_cel(frame, cel) {
                Ok(layer) => Ok(
                    AsepriteView { layers: self.layers.update(layer_index as int, layer), ..self },
                ),
                Err(e) => Err(e),
            }
        }
    }

    /// The document after one chunk of the given frame.
    ///
    /// `opacity_valid` says whether the file's header marks layer opacities
    /// as valid.
    pub open spec fn with_chunk(
        self,
        opacity_valid: bool,
        frame: usize,
        chunk: RawAsepriteChunkView,
    ) -> Result<AsepriteView, AsepriteError> {
        match chunk {
            RawAsepriteChunkView::Layer {
                flags,
                layer_type,
                layer_child,
                blend_mode,
                opacity,
                name,
                ..
            } => Ok(
                AsepriteView {
                    layers: self.layers.push(
                        AsepriteLayerView::new(
                            self.layers.len() as usize,
                            name,
                            layer_type,
                            flags & 0x1 != 0,
                            blend_mode,
                            if opacity_valid {
                                Some(opacity)
                            } else {
                                None
                            },
                            layer_child,
                        ),
                    ),
                    ..self
                },
            ),
            RawAsepriteChunkView::Cel { layer_index, x, y, opacity, cel } => self.with_cel(
                frame,
                layer_index,
                AsepriteCelView { x, y, opacity, raw_cel: cel },
            ),
            RawAsepriteChunkView::Tags { tags } => match insert_tags(
                self.tags,
                tags,
                self.frame_count,
            ) {
                Ok(tags) => Ok(AsepriteView { tags, ..self }),
                Err(e) => Err(e),
            },
            RawAsepriteChunkView::Palette { palette_size, from_color, entries, .. } => Ok(
                AsepriteView {
                    palette: Some(palette_entries(palette_size, from_color, entries)),
                    ..self
                },
            ),
            RawAsepriteChunkView::Slice { name, slices, .. } => Ok(
                AsepriteView { slices: insert_slices(self.slices, name, slices), ..self },
            ),
            RawAsepriteChunkView::CelExtra { .. } => Ok(self),
            RawAsepriteChunkView::UserData { .. } => Ok(self),
            RawAsepriteChunkView::ColorProfile { .. } => Ok(self),
        }
    }

    /// The document after the chunks of the given frame, in their order. The
    /// first chunk that gives an error ends the assembly with that error.
    pub open spec fn with_chunks(
        self,
        opacity_valid: bool,
        frame: usize,
        chunks: Seq<RawAsepriteChunkView>,
    ) -> Result<AsepriteView, AsepriteError>
        decreases chunks.len(),
    {
        if chunks.len() == 0 {
            Ok(self)
        } else {
            match self.with_chunks(opacity_valid, frame, chunks.drop_last()) {
                Ok(doc) => doc.with_chunk(opacity_valid, frame, chunks.last()),
                Err(e) => Err(e),
            }
        }
    }

    /// The document with the delay of one more frame.
    pub open spec fn with_delay(self, duration_ms: u16) -> AsepriteView {
        AsepriteView { frame_delays: self.frame_delays.push(duration_ms as usize), ..self }
    }

    /// The document after the given frames, in their order; the index of a
    /// frame is its place in this order.
    pub open spec fn with_frames(
        self,
        opacity_valid: bool,
        frames: Seq<RawAsepriteFrameView>,
    ) -> Result<AsepriteView, AsepriteError>
        decreases frames.len(),
    {
        if frames.len() == 0 {
            Ok(self)
        } else {
            match self.with_frames(opacity_valid, frames.drop_last()) {
                Ok(doc) => doc.with_delay(frames.last().duration_ms).with_chunks(
                    opacity_valid,
                    (frames.len() - 1) as usize,
                    frames.last().chunks,
                ),
                Err(e) => Err(e),
            }
        }
    }

    /// What the chunks of a well-formed file keep true of the document:
    /// layer ids are dense, every cel has a pixel for each position, and
    /// every tag lies within the frames.
    pub open spec fn parts_well_formed(self) -> bool {
        &&& self.ids_dense()
        &&& forall|i: int| 0 <= i < self.layers.len() ==> (#[trigger] self.layers[i]).well_formed()
        &&& self.tags_within_frames()
    }

    /// The document without its layers.
    pub open spec fn info(self) -> AsepriteInfoView {
        AsepriteInfoView {
            width: self.width,
            height: self.height,
            tags: self.tags,
            slices: self.slices,
            frame_count: self.frame_count,
            palette: self.palette,
            transparent_palette: self.transparent_palette,
            frame_delays: self.frame_delays,
        }
    }
}

/// The document that the frames and chunks of a raw file stand for, or the
/// error of the first chunk that is at odds with the chunks before it.
pub open spec fn assemble(raw: RawAsepriteView) -> Result<AsepriteView, AsepriteError> {
    AsepriteView::empty(raw.header, raw.frames.len() as usize).with_frames(
        raw.header.flags & 0x1 != 0,
        raw.frames,
    )
}

/// The document that a byte buffer holds, or the error that keeps it from
/// holding one: the error of the decoder, or that of the assembly.
pub open spec fn decode(bytes: Seq<u8>) -> Result<AsepriteView, AsepriteError> {
    match spec_read_aseprite(bytes) {
        Ok(raw) => assemble(raw),
        Err(e) => Err(e),
    }
}

/// What an [`AsepriteInfo`] holds.
pub struct AsepriteInfoView {
    /// Width of the canvas
    pub width: u16,
    /// Height of the canvas
    pub height: u16,
    /// The tags by name
    pub tags: Map<Seq<char>, AsepriteTagView>,
    /// The slices by name
    pub slices: Map<Seq<char>, AsepriteSliceView>,
    /// The number of frames
    pub frame_count: usize,
    /// The palette, if a palette chunk declared one
    pub palette: Option<Seq<AsepriteColor>>,
    /// The palette index that stands for "transparent", in indexed files
    pub transparent_palette: Option<u8>,
    /// The delay of each frame in milliseconds
    pub frame_delays: Seq<usize>,
}

/// Once a chunk has given an error, the chunks after it change nothing.
pub proof fn lemma_chunks_error_stays(
    doc: AsepriteView,
    opacity_valid: bool,
    frame: usize,
    chunks: Seq<RawAsepriteChunkView>,
    n: int,
)
    requires
        0 <= n <= chunks.len(),
        doc.with_chunks(opacity_valid, frame, chunks.take(n)) is Err,
    ensures
        doc.with_chunks(opacity_valid, frame, chunks) == doc.with_chunks(
            opacity_valid,
            frame,
            chunks.take(n),
        ),
    decreases chunks.len() - n,
{
    if n == chunks.len() {
        assert(chunks.take(n) =~= chunks);
    } else {
        assert(chunks.take(n + 1).drop_last() =~= chunks.take(n));
        lemma_chunks_error_stays(doc, opacity_valid, frame, chunks, n + 1);
    }
}

/// Once a frame has given an error, the frames after it change nothing.
pub proof fn lemma_assembly_error_stays(
    doc: AsepriteView,
    opacity_valid: bool,
    frames: Seq<RawAsepriteFrameView>,
    n: int,
)
    requires
        0 <= n <= frames.len(),
        doc.with_frames(opacity_valid, frames.take(n)) is Err,
    ensures
        doc.with_frames(opacity_valid, frames) == doc.with_frames(opacity_valid, frames.take(n)),
    decreases frames.len() - n,
{
    if n == frames.len() {
        assert(frames.take(n) =~= frames);
    } else {
        assert(frames.take(n + 1).drop_last() =~= frames.take(n));
        lemma_assembly_error_stays(doc, opacity_valid, frames, n + 1);
    }
}

/// A chunk that is taken in leaves the layer ids dense and the cels well
/// formed, and changes neither the delays nor the frame count.
pub proof fn lemma_with_chunk_well_formed(
    doc: AsepriteView,
    opacity_valid: bool,
    frame: usize,
    chunk: RawAsepriteChunkView,
)
    requires
        doc.parts_well_formed(),
        chunk is Layer ==> doc.layers.len() < usize::MAX,
        chunk.well_formed(),
    ensures
        doc.with_chunk(opacity_valid, frame, chunk) matches Ok(after) ==> after.parts_well_formed()
            && after.frame_delays == doc.frame_delays && after.frame_count == doc.frame_count
            && after.width == doc.width && after.height == doc.height
            && after.layers.len() <= doc.layers.len() + 1,
{
    match doc.with_chunk(opacity_valid, frame, chunk) {
        Ok(after) => {
            match chunk {
                RawAsepriteChunkView::Cel { layer_index, x, y, opacity, cel } => {
                    let put = AsepriteCelView { x, y, opacity, raw_cel: cel };
                    let layer = doc.layers[layer_index as int];
                    let changed = after.layers[layer_index as int];
                    assert(layer.add_cel(frame, put) == Ok::<AsepriteLayerView, AsepriteError>(
                        changed,
                    ));
                    assert(changed.id() == layer.id());
                    assert(layer.well_formed());
                    assert(changed.well_formed()) by {
                        assert forall|f: usize| #[trigger]
                            changed.cels().contains_key(f) implies changed.cels()[f].raw_cel
                            .well_formed() by {
                            if f != frame {
                                assert(layer.cels().contains_key(f));
                            }
                        }
                    }
                    assert forall|i: int| 0 <= i < after.layers.len() implies (
                    #[trigger] after.layers[i]).well_formed() && after.layers[i].id() == i by {
                        if i != layer_index as int {
                            assert(after.layers[i] == doc.layers[i]);
                        }
                    }
                },
                RawAsepriteChunkView::Layer { .. } => {
                    assert forall|i: int| 0 <= i < after.layers.len() implies (
                    #[trigger] after.layers[i]).well_formed() && after.layers[i].id() == i by {
                        if i < doc.layers.len() {
                            assert(after.layers[i] == doc.layers[i]);
                        }
                    }
                },
                RawAsepriteChunkView::Tags { tags } => {
                    lemma_tags_within(doc.tags, tags, doc.frame_count);
                },
                _ => {},
            }
        },
        Err(_) => {},
    }
}

/// The chunks of a frame that are taken in leave the layer ids dense and
/// the cels well formed, and change neither the delays nor the frame count.
pub proof fn lemma_with_chunks_well_formed(
    doc: AsepriteView,
    opacity_valid: bool,
    frame: usize,
    chunks: Seq<RawAsepriteChunkView>,
)
    requires
        doc.parts_well_formed(),
        doc.layers.len() + chunks.len() <= usize::MAX,
        forall|i: int| 0 <= i < chunks.len() ==> (#[trigger] chunks[i]).well_formed(),
    ensures
        doc.with_chunks(opacity_valid, frame, chunks) matches Ok(after)
            ==> after.parts_well_formed() && after.frame_delays == doc.frame_delays
            && after.frame_count == doc.frame_count && after.width == doc.width && after.height
            == doc.height && after.layers.len() <= doc.layers.len() + chunks.len(),
    decreases chunks.len(),
{
    if chunks.len() > 0 {
        let front = chunks.drop_last();
        assert forall|i: int| 0 <= i < front.len() implies (#[trigger] front[i]).well_formed() by {
            assert(front[i] == chunks[i]);
        }
        lemma_with_chunks_well_formed(doc, opacity_valid, frame, front);
        match doc.with_chunks(opacity_valid, frame, front) {
            Ok(middle) => {
                assert(chunks.last() == chunks[chunks.len() - 1]);
                lemma_with_chunk_well_formed(middle, opacity_valid, frame, chunks.last());
            },
            Err(_) => {},
        }
    }
}

/// The number of chunks in a list of frames.
pub open spec fn chunk_count(frames: Seq<RawAsepriteFrameView>) -> nat
    decreases frames.len(),
{
    if frames.len() == 0 {
        0
    } else {
        chunk_count(frames.drop_last()) + frames.last().chunks.len()
    }
}

/// The frames that are taken in leave the layer ids dense and the cels well
/// formed, and add one delay each.
pub proof fn lemma_with_frames_well_formed(
    doc: AsepriteView,
    opacity_valid: bool,
    frames: Seq<RawAsepriteFrameView>,
)
    requires
        doc.parts_well_formed(),
        doc.layers.len() + chunk_count(frames) <= usize::MAX,
        forall|i: int| 0 <= i < frames.len() ==> (#[trigger] frames[i]).well_formed(),
    ensures
        doc.with_frames(opacity_valid, frames) matches Ok(after) ==> after.parts_well_formed()
            && after.frame_delays.len() == doc.frame_delays.len() + frames.len()
            && after.frame_count == doc.frame_count && after.width == doc.width && after.height
            == doc.height && after.layers.len() <= doc.layers.len() + chunk_count(frames),
    decreases frames.len(),
{
    if frames.len() > 0 {
        let front = frames.drop_last();
        assert forall|i: int| 0 <= i < front.len() implies (#[trigger] front[i]).well_formed() by {
            assert(front[i] == frames[i]);
        }
        lemma_with_frames_well_formed(doc, opacity_valid, front);
        match doc.with_frames(opacity_valid, front) {
            Ok(middle) => {
                assert(frames.last() == frames[frames.len() - 1]);
                lemma_with_chunks_well_formed(
                    middle.with_delay(frames.last().duration_ms),
                    opacity_valid,
                    (frames.len() - 1) as usize,
                    frames.last().chunks,
                );
            },
            Err(_) => {},
        }
    }
}

/// The document of a well-formed raw file is well formed, and has the
/// canvas of the header and one delay for each frame.
pub proof fn lemma_assemble_well_formed(raw: RawAsepriteView)
    requires
        raw.well_formed(),
        raw.frames.len() <= usize::MAX,
        chunk_count(raw.frames) <= usize::MAX,
    ensures
        assemble(raw) matches Ok(doc) ==> doc.well_formed() && doc.frame_count == raw.frames.len()
            && doc.width == raw.header.width && doc.height == raw.header.height,
{
    lemma_with_frames_well_formed(
        AsepriteView::empty(raw.header, raw.frames.len() as usize),
        raw.header.flags & 0x1 != 0,
        raw.frames,
    );
}

} // verus!
