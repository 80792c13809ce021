//! The document that is assembled from the raw frames and chunks, and what
//! is computed from it: the images of its frames and of its slices.

use std::collections::HashMap;
use std::ops::Range;
use vstd::prelude::*;

use crate::compose::{
    lemma_blank_cel_changes_nothing,
    lemma_column_error_stays,
    lemma_columns_error_stays,
    lemma_layers_error_stays,
    lemma_slices_error_stays,
    nine_patches,
    AsepriteSliceImageView,
    CelImage,
    Colors,
};
use crate::error::{AsepriteError, AsepriteInvalidError};
use crate::model::{
    assemble,
    decode,
    insert_slices,
    insert_tags,
    lemma_assembly_error_stays,
    lemma_chunks_error_stays,
    lemma_tags_error_stays,
    lemma_with_chunk_well_formed,
    palette_entries,
    transparent_black,
    AsepriteCelView,
    AsepriteInfoView,
    AsepriteLayerView,
    AsepriteSliceView,
    AsepriteTagView,
    AsepriteView,
};
use crate::nine_patch::{nine_patch_rect_of, nine_slices, NineSlice};
use crate::raster::{lemma_pixel_in_bounds, RasterImage, RasterView};
use crate::raw::{
    views,
    AsepriteAnimationDirection,
    AsepriteBlendMode,
    AsepriteColor,
    AsepriteColorDepth,
    AsepriteLayerType,
    AsepriteNinePatchInfo,
    AsepritePivot,
    AsepritePixel,
    RawAseprite,
    RawAsepriteCel,
    RawAsepriteChunk,
    RawAsepritePaletteEntry,
    RawAsepriteSlice,
    RawAsepriteTag,
};
use crate::table::NameMap;

verus! {

/// Information about a single animation frame
#[derive(Debug, Clone, Copy, PartialEq, Eq)]
pub struct AsepriteFrameInfo {
    /// The delay of this frame in milliseconds
    pub delay_ms: usize,
}

/// A single tag
#[derive(Debug)]
pub struct AsepriteTag {
    /// The frames which this tag represents
    pub frames: Range<u16>,
    /// The direction of its animation
    pub animation_direction: AsepriteAnimationDirection,
    /// The tag name
    pub name: String,
}

impl View for AsepriteTag {
    type V = AsepriteTagView;

    open spec fn view(&self) -> AsepriteTagView {
        AsepriteTagView {
            start: self.frames.start,
            end: self.frames.end,
            animation_direction: self.animation_direction,
            name: self.name@,
        }
    }
}

impl Clone for AsepriteTag {
    fn clone(&self) -> (copy: AsepriteTag)
        ensures
            copy@ == self@,
    {
        AsepriteTag {
            frames: Range { start: self.frames.start, end: self.frames.end },
            animation_direction: self.animation_direction,
            name: self.name.clone(),
        }
    }
}

/// A single slice
#[derive(Debug)]
pub struct AsepriteSlice {
    /// The slice name
    pub name: String,
    /// The frame from which it is valid
    pub valid_frame: u16,
    /// The slice's x position
    pub position_x: i32,
    /// The slice's y position
    pub position_y: i32,
    /// The slice's width
    pub width: u32,
    /// The slice's height
    pub height: u32,
    /// Nine-Patch Info if it exists
    pub nine_patch_info: Option<AsepriteNinePatchInfo>,
    /// The pivot if it exists
    pub pivot: Option<AsepritePivot>,
}

impl Clone for AsepriteSlice {
    fn clone(&self) -> (copy: AsepriteSlice)
        ensures
            copy@ == self@,
    {
        AsepriteSlice {
            name: self.name.clone(),
            valid_frame: self.valid_frame,
            position_x: self.position_x,
            position_y: self.position_y,
            width: self.width,
            height: self.height,
            nine_patch_info: self.nine_patch_info,
            pivot: self.pivot,
        }
    }
}

impl View for AsepriteSlice {
    type V = AsepriteSliceView;

    open spec fn view(&self) -> AsepriteSliceView {
        AsepriteSliceView {
            name: self.name@,
            valid_frame: self.valid_frame,
            position_x: self.position_x,
            position_y: self.position_y,
            width: self.width,
            height: self.height,
            nine_patch_info: self.nine_patch_info,
            pivot: self.pivot,
        }
    }
}

/// A single cel in a frame in a layer
///
/// A cel that carries pixels carries one for each position of its grid.
#[derive(Debug)]
pub struct AsepriteCel {
    x: i16,
    y: i16,
    opacity: u8,
    raw_cel: RawAsepriteCel,
}

impl View for AsepriteCel {
    type V = AsepriteCelView;

    closed spec fn view(&self) -> AsepriteCelView {
        AsepriteCelView { x: self.x, y: self.y, opacity: self.opacity, raw_cel: self.raw_cel@ }
    }
}

impl Clone for AsepriteCel {
    fn clone(&self) -> (copy: AsepriteCel)
        ensures
            copy@ == self@,
    {
        proof {
            use_type_invariant(self);
        }
        AsepriteCel { x: self.x, y: self.y, opacity: self.opacity, raw_cel: self.raw_cel.clone() }
    }
}

impl AsepriteCel {
    #[verifier::type_invariant]
    spec fn valid(self) -> bool {
        self.raw_cel@.well_formed()
    }

    fn new(x: i16, y: i16, opacity: u8, raw_cel: RawAsepriteCel) -> (cel: AsepriteCel)
        requires
            raw_cel@.well_formed(),
        ensures
            cel@ == (AsepriteCelView { x, y, opacity, raw_cel: raw_cel@ }),
    {
        AsepriteCel { x, y, opacity, raw_cel }
    }
}

/// A layer
#[allow(inconsistent_fields)]
#[derive(Debug)]
pub enum AsepriteLayer {
    /// A layer group
    Group {
        /// Name of the layer
        name: String,
        /// Id of the layer
        id: usize,
        /// Visibility of the layer
        visible: bool,
        /// How deep it is nested in the layer hierarchy
        child_level: u16,
    },
    /// A normal layer
    Normal {
        /// Name of the layer
        name: String,
        /// Id of the layer
        id: usize,
        /// Blend mode of this layer
        blend_mode: AsepriteBlendMode,
        /// Opacity of this layer (if enabled)
        opacity: Option<u8>,
        /// Visibility of this layer
        visible: bool,
        /// How deep it is nested in the layer hierarchy
        child_level: u16,
        /// Cels keyed by frame index
        cels: HashMap<usize, AsepriteCel>,
    },
}

impl Clone for AsepriteLayer {
    fn clone(&self) -> (copy: AsepriteLayer)
        ensures
            copy@ == self@,
    {
        match self {
            AsepriteLayer::Group { name, id, visible, child_level } => AsepriteLayer::Group {
                name: name.clone(),
                id: *id,
                visible: *visible,
                child_level: *child_level,
            },
            AsepriteLayer::Normal {
                name,
                id,
                blend_mode,
                opacity,
                visible,
                child_level,
                cels,
            } => AsepriteLayer::Normal {
                name: name.clone(),
                id: *id,
                blend_mode: *blend_mode,
                opacity: *opacity,
                visible: *visible,
                child_level: *child_level,
                cels: cels.clone(),
            },
        }
    }
}

impl View for AsepriteLayer {
    type V = AsepriteLayerView;

    open spec fn view(&self) -> AsepriteLayerView {
        match *self {
            AsepriteLayer::Group { name, id, visible, child_level } => AsepriteLayerView::Group {
                name: name@,
                id,
                visible,
                child_level,
            },
            AsepriteLayer::Normal {
                name,
                id,
                blend_mode,
                opacity,
                visible,
                child_level,
                cels,
            } => AsepriteLayerView::Normal {
                name: name@,
                id,
                blend_mode,
                opacity,
                visible,
                child_level,
                cels: cels@.map_values(|cel: AsepriteCel| cel@),
            },
        }
    }
}

impl AsepriteLayer {
    fn new(
        id: usize,
        name: String,
        layer_type: AsepriteLayerType,
        visible: bool,
        blend_mode: AsepriteBlendMode,
        opacity: Option<u8>,
        child_level: u16,
    ) -> (layer: AsepriteLayer)
        ensures
            layer@ == AsepriteLayerView::new(
                id,
                name@,
                layer_type,
                visible,
                blend_mode,
                opacity,
                child_level,
            ),
    {
        match layer_type {
            AsepriteLayerType::Normal => {
                let cels: HashMap<usize, AsepriteCel> = HashMap::new();
                assert(cels@.map_values(|cel: AsepriteCel| cel@) =~= Map::empty());
                AsepriteLayer::Normal {
                    name,
                    id,
                    blend_mode,
                    opacity,
                    visible,
                    child_level,
                    cels,
                }
            },
            AsepriteLayerType::Group => AsepriteLayer::Group { name, id, visible, child_level },
        }
    }

    /// Get the name of the layer
    pub fn name(&self) -> (name: &str)
        ensures
            name@ == self@.name(),
    {
        match self {
            AsepriteLayer::Group { name, .. } => name.as_str(),
            AsepriteLayer::Normal { name, .. } => name.as_str(),
        }
    }

    /// Get the id of the layer
    pub fn id(&self) -> (id: usize)
        ensures
            id == self@.id(),
    {
        match self {
            AsepriteLayer::Group { id, .. } => *id,
            AsepriteLayer::Normal { id, .. } => *id,
        }
    }

    /// Get the visibility of the layer
    pub fn is_visible(&self) -> (visible: bool)
        ensures
            visible == self@.is_visible(),
    {
        match self {
            AsepriteLayer::Group { visible, .. } => *visible,
            AsepriteLayer::Normal { visible, .. } => *visible,
        }
    }

    /// Returns `true` if the layer is a [`Group`].
    ///
    /// [`Group`]: AsepriteLayer::Group
    #[must_use]
    pub fn is_group(&self) -> (group: bool)
        ensures
            group == (self@ is Group),
    {
        match self {
            AsepriteLayer::Group { .. } => true,
            AsepriteLayer::Normal { .. } => false,
        }
    }

    /// The number of cels of the layer; a group has none.
    pub fn cel_count(&self) -> (count: usize)
        ensures
            count == self@.cels().len(),
    {
        broadcast use vstd::std_specs::hash::group_hash_axioms;

        match self {
            AsepriteLayer::Group { .. } => 0,
            AsepriteLayer::Normal { cels, .. } => {
                proof {
                    let shown = cels@.map_values(|cel: AsepriteCel| cel@);
                    assert(shown.dom() =~= cels@.dom());
                }
                cels.len()
            },
        }
    }

    fn add_cel(&mut self, frame: usize, cel: AsepriteCel) -> (res: Result<(), AsepriteError>)
        ensures
            match res {
                Ok(_) => old(self)@.add_cel(frame, cel@) == Ok::<AsepriteLayerView, AsepriteError>(
                    final(self)@,
                ),
                Err(e) => old(self)@.add_cel(frame, cel@) == Err::<AsepriteLayerView, AsepriteError>(
                    e,
                ) && *final(self) == *old(self),
            },
    {
        broadcast use vstd::std_specs::hash::group_hash_axioms;

        match self {
            AsepriteLayer::Group { id, .. } => {
                return Err(
                    AsepriteError::InvalidConfiguration(AsepriteInvalidError::InvalidLayer(*id)),
                );
            },
            AsepriteLayer::Normal { cels, .. } => {
                let ghost before = cels@;
                cels.insert(frame, cel);
                assert(cels@.map_values(|c: AsepriteCel| c@) =~= before.map_values(
                    |c: AsepriteCel| c@,
                ).insert(frame, cel@));
            },
        }
        Ok(())
    }

    fn get_cel(&self, frame: usize) -> (res: Result<&AsepriteCel, AsepriteError>)
        ensures
            match res {
                Ok(cel) => self@.get_cel(frame) == Ok::<AsepriteCelView, AsepriteError>(cel@),
                Err(e) => self@.get_cel(frame) == Err::<AsepriteCelView, AsepriteError>(e),
            },
    {
        broadcast use vstd::std_specs::hash::group_hash_axioms;

        match self {
            AsepriteLayer::Group { id, .. } => Err(
                AsepriteError::InvalidConfiguration(AsepriteInvalidError::InvalidLayer(*id)),
            ),
            AsepriteLayer::Normal { cels, .. } => match cels.get(&frame) {
                Some(cel) => Ok(cel),
                None => Err(
                    AsepriteError::InvalidConfiguration(AsepriteInvalidError::InvalidFrame(frame)),
                ),
            },
        }
    }
}

/// The palette entries in the file
#[allow(missing_docs)]
#[derive(Debug)]
pub struct AsepritePalette {
    pub entries: Vec<AsepriteColor>,
}

impl Clone for AsepritePalette {
    fn clone(&self) -> (copy: AsepritePalette)
        ensures
            copy.entries@ == self.entries@,
    {
        let entries = self.entries.clone();
        assert(entries@ =~= self.entries@);
        AsepritePalette { entries }
    }
}

impl AsepritePalette {
    /// The palette that a palette chunk declares.
    pub fn from_raw(
        palette_size: u32,
        from_color: u32,
        raw_entries: Vec<RawAsepritePaletteEntry>,
    ) -> (palette: AsepritePalette)
        ensures
            palette.entries@ == palette_entries(palette_size, from_color, views(raw_entries@)),
    {
        let blank = AsepriteColor { red: 0, green: 0, blue: 0, alpha: 0 };
        let mut entries: Vec<AsepriteColor> = vec![blank; palette_size as usize];
        let size = entries.len();
        let first = from_color as usize;
        if first < size {
            let room = size - first;
            let count = if raw_entries.len() < room {
                raw_entries.len()
            } else {
                room
            };
            let mut k: usize = 0;
            while k < count
                invariant
                    k <= count,
                    count <= raw_entries.len(),
                    first + count <= size,
                    size == entries.len(),
                    size == palette_size,
                    first == from_color,
                    forall|i: int|
                        0 <= i < size ==> #[trigger] entries[i] == if first <= i < first + k {
                            raw_entries[i - first].color
                        } else {
                            transparent_black()
                        },
                decreases count - k,
            {
                let color = raw_entries[k].color;
                entries.set(first + k, color);
                k += 1;
            }
        }
        assert(entries@ =~= palette_entries(palette_size, from_color, views(raw_entries@)));
        AsepritePalette { entries }
    }
}

/// The entries of an optional palette, as a sequence.
pub open spec fn palette_colors(palette: Option<AsepritePalette>) -> Option<Seq<AsepriteColor>> {
    match palette {
        Some(p) => Some(p.entries@),
        None => None,
    }
}

/// The delays of a list of frame infos.
pub open spec fn delays(infos: Seq<AsepriteFrameInfo>) -> Seq<usize> {
    Seq::new(infos.len(), |i: int| infos[i].delay_ms)
}

/// Data structure representing a decoded file
#[derive(Debug)]
pub struct Aseprite {
    dimensions: (u16, u16),
    tags: NameMap<AsepriteTag>,
    slices: NameMap<AsepriteSlice>,
    layers: Vec<AsepriteLayer>,
    frame_count: usize,
    palette: Option<AsepritePalette>,
    transparent_palette: Option<u8>,
    frame_infos: Vec<AsepriteFrameInfo>,
}

impl Clone for Aseprite {
    fn clone(&self) -> (copy: Aseprite)
        ensures
            copy@ == self@,
    {
        let tags = self.tags.clone();
        let slices = self.slices.clone();
        let layers = self.layers.clone();
        let palette = self.palette.clone();
        let frame_infos = self.frame_infos.clone();
        assert(views(layers@) =~= views(self.layers@));
        assert(delays(frame_infos@) =~= delays(self.frame_infos@));
        Aseprite {
            dimensions: self.dimensions,
            tags,
            slices,
            layers,
            frame_count: self.frame_count,
            palette,
            transparent_palette: self.transparent_palette,
            frame_infos,
        }
    }
}

impl View for Aseprite {
    type V = AsepriteView;

    closed spec fn view(&self) -> AsepriteView {
        AsepriteView {
            width: self.dimensions.0,
            height: self.dimensions.1,
            tags: self.tags@,
            slices: self.slices@,
            layers: views(self.layers@),
            frame_count: self.frame_count,
            palette: palette_colors(self.palette),
            transparent_palette: self.transparent_palette,
            frame_delays: delays(self.frame_infos@),
        }
    }
}

impl Aseprite {
    fn add_tags(&mut self, raw_tags: Vec<RawAsepriteTag>) -> (res: Result<(), AsepriteError>)
        ensures
            match res {
                Ok(_) => insert_tags(old(self)@.tags, views(raw_tags@), old(self)@.frame_count)
                    == Ok::<Map<Seq<char>, AsepriteTagView>, AsepriteError>(final(self)@.tags)
                    && final(self)@ == (AsepriteView { tags: final(self)@.tags, ..old(self)@ }),
                Err(e) => insert_tags(old(self)@.tags, views(raw_tags@), old(self)@.frame_count)
                    == Err::<Map<Seq<char>, AsepriteTagView>, AsepriteError>(e),
            },
    {
        let ghost all = views(raw_tags@);
        let ghost before = self@;
        let frame_count = self.frame_count;
        for raw_tag in it: raw_tags
            invariant
                all == views(it.seq()),
                all == views(raw_tags@),
                before == old(self)@,
                frame_count == before.frame_count,
                self@ == (AsepriteView { tags: self@.tags, ..before }),
                insert_tags(before.tags, all.take(it.index() as int), frame_count) == Ok::<
                    Map<Seq<char>, AsepriteTagView>,
                    AsepriteError,
                >(self@.tags),
        {
            let ghost i = it.index() as int;
            proof {
                assert(all.take(i + 1).drop_last() =~= all.take(i));
                assert(all.take(i + 1).last() == raw_tag@);
            }
            let last = raw_tag.to as usize;
            if raw_tag.from > raw_tag.to || last >= frame_count || raw_tag.to == u16::MAX {
                proof {
                    lemma_tags_error_stays(before.tags, all, frame_count, i + 1);
                }
                return Err(
                    AsepriteError::InvalidConfiguration(AsepriteInvalidError::InvalidFrame(last)),
                );
            }
            let name = raw_tag.name.clone();
            self.tags.insert(
                name,
                AsepriteTag {
                    frames: Range { start: raw_tag.from, end: raw_tag.to + 1 },
                    animation_direction: raw_tag.anim_direction,
                    name: raw_tag.name,
                },
            );
        }
        proof {
            assert(all.take(all.len() as int) =~= all);
        }
        Ok(())
    }

    fn add_slices(&mut self, name: String, raw_slices: Vec<RawAsepriteSlice>)
        ensures
            final(self)@ == (AsepriteView {
                slices: insert_slices(old(self)@.slices, name@, raw_slices@),
                ..old(self)@
            }),
    {
        let ghost all = raw_slices@;
        let ghost before = self@;
        for raw_slice in it: raw_slices
            invariant
                all == it.seq(),
                self@ == (AsepriteView {
                    slices: insert_slices(before.slices, name@, all.take(it.index() as int)),
                    ..before
                }),
        {
            proof {
                let i = it.index() as int;
                assert(all.take(i + 1).drop_last() =~= all.take(i));
                assert(all.take(i + 1).last() == raw_slice);
            }
            self.slices.insert(
                name.clone(),
                AsepriteSlice {
                    name: name.clone(),
                    valid_frame: (raw_slice.frame % 65536) as u16,
                    position_x: raw_slice.x_origin,
                    position_y: raw_slice.y_origin,
                    width: raw_slice.width,
                    height: raw_slice.height,
                    nine_patch_info: raw_slice.nine_patch_info,
                    pivot: raw_slice.pivot,
                },
            );
        }
        proof {
            assert(all.take(all.len() as int) =~= all);
        }
    }

    fn add_chunk(&mut self, opacity_valid: bool, frame: usize, chunk: RawAsepriteChunk) -> (res:
        Result<(), AsepriteError>)
        requires
            chunk@.well_formed(),
        ensures
            match res {
                Ok(_) => old(self)@.with_chunk(opacity_valid, frame, chunk@) == Ok::<
                    AsepriteView,
                    AsepriteError,
                >(final(self)@),
                Err(e) => old(self)@.with_chunk(opacity_valid, frame, chunk@) == Err::<
                    AsepriteView,
                    AsepriteError,
                >(e),
            },
            res is Ok && old(self)@.parts_well_formed() ==> final(self)@.parts_well_formed(),
            res is Ok ==> final(self)@.frame_delays == old(self)@.frame_delays,
            res is Ok ==> final(self)@.frame_count == old(self)@.frame_count,
    {
        let ghost before = self@;
        let ghost taken = chunk@;
        proof {
            if before.parts_well_formed() && (taken is Layer ==> before.layers.len()
                < usize::MAX) {
                lemma_with_chunk_well_formed(before, opacity_valid, frame, taken);
            }
        }
        match chunk {
            RawAsepriteChunk::Layer {
                flags,
                layer_type,
                layer_child,
                width: _,
                height: _,
                blend_mode,
                opacity,
                name,
            } => {
                let id = self.layers.len();
                let layer = AsepriteLayer::new(
                    id,
                    name,
                    layer_type,
                    flags & 0x1 != 0,
                    blend_mode,
                    if opacity_valid {
                        Some(opacity)
                    } else {
                        None
                    },
                    layer_child,
                );
                self.layers.push(layer);
                let count = self.layers.len();
                assert(self@.layers =~= before.layers.push(layer@));
                proof {
                    assert(count == before.layers.len() + 1);
                    if before.parts_well_formed() {
                        lemma_with_chunk_well_formed(before, opacity_valid, frame, taken);
                    }
                }
            },
            RawAsepriteChunk::Cel { layer_index, x, y, opacity, cel } => {
                let index = layer_index as usize;
                if index >= self.layers.len() {
                    return Err(
                        AsepriteError::InvalidConfiguration(
                            AsepriteInvalidError::InvalidLayer(index),
                        ),
                    );
                }
                let cel = AsepriteCel::new(x, y, opacity, cel);
                match self.layers[index].add_cel(frame, cel) {
                    Ok(_) => {
                        assert(self@.layers =~= before.layers.update(
                            index as int,
                            self.layers[index as int]@,
                        ));
                    },
                    Err(e) => {
                        return Err(e);
                    },
                }
            },
            RawAsepriteChunk::CelExtra { .. } => {},
            RawAsepriteChunk::Tags { tags } => {
                match self.add_tags(tags) {
                    Ok(_) => {},
                    Err(e) => {
                        return Err(e);
                    },
                }
            },
            RawAsepriteChunk::Palette { palette_size, from_color, to_color: _, entries } => {
                self.palette = Some(AsepritePalette::from_raw(palette_size, from_color, entries));
            },
            RawAsepriteChunk::UserData { .. } => {},
            RawAsepriteChunk::Slice { flags: _, name, slices } => {
                self.add_slices(name, slices);
            },
            RawAsepriteChunk::ColorProfile { .. } => {},
        }
        Ok(())
    }

    fn add_chunks(
        &mut self,
        opacity_valid: bool,
        frame: usize,
        chunks: Vec<RawAsepriteChunk>,
    ) -> (res: Result<(), AsepriteError>)
        requires
            forall|i: int| 0 <= i < chunks.len() ==> (#[trigger] chunks[i])@.well_formed(),
        ensures
            match res {
                Ok(_) => old(self)@.with_chunks(opacity_valid, frame, views(chunks@)) == Ok::<
                    AsepriteView,
                    AsepriteError,
                >(final(self)@),
                Err(e) => old(self)@.with_chunks(opacity_valid, frame, views(chunks@)) == Err::<
                    AsepriteView,
                    AsepriteError,
                >(e),
            },
            res is Ok && old(self)@.parts_well_formed() ==> final(self)@.parts_well_formed(),
            res is Ok ==> final(self)@.frame_delays == old(self)@.frame_delays,
            res is Ok ==> final(self)@.frame_count == old(self)@.frame_count,
    {
        let ghost all = views(chunks@);
        let ghost before = self@;
        for chunk in it: chunks
            invariant
                all == views(it.seq()),
                all == views(chunks@),
                before == old(self)@,
                before.parts_well_formed() ==> self@.parts_well_formed(),
                self@.frame_delays == before.frame_delays,
                self@.frame_count == before.frame_count,
                forall|i: int| 0 <= i < it.seq().len() ==> (#[trigger] it.seq()[i])@.well_formed(),
                before.with_chunks(opacity_valid, frame, all.take(it.index() as int)) == Ok::<
                    AsepriteView,
                    AsepriteError,
                >(self@),
        {
            let ghost i = it.index() as int;
            let ghost so_far = self@;
            proof {
                assert(all.take(i + 1).drop_last() =~= all.take(i));
                assert(all.take(i + 1).last() == chunk@);
                assert(chunk == it.seq()[i]);
                assert(before.with_chunks(opacity_valid, frame, all.take(i + 1))
                    == so_far.with_chunk(opacity_valid, frame, chunk@));
            }
            match self.add_chunk(opacity_valid, frame, chunk) {
                Ok(_) => {},
                Err(e) => {
                    proof {
                        lemma_chunks_error_stays(
                            before,
                            opacity_valid,
                            frame,
                            all,
                            i + 1,
                        );
                    }
                    return Err(e);
                },
            }
        }
        proof {
            assert(all.take(all.len() as int) =~= all);
        }
        Ok(())
    }
}

impl Aseprite {
    /// Construct an [`Aseprite`] from a [`RawAseprite`]
    pub fn from_raw(raw: RawAseprite) -> (res: Result<Aseprite, AsepriteError>)
        requires
            raw@.well_formed(),
        ensures
            match res {
                Ok(doc) => assemble(raw@) == Ok::<AsepriteView, AsepriteError>(doc@)
                    && doc@.well_formed(),
                Err(e) => assemble(raw@) == Err::<AsepriteView, AsepriteError>(e),
            },
    {
        let RawAseprite { header, frames } = raw;
        let frame_count = frames.len();
        let opacity_valid = header.flags & 0x1 != 0;
        let transparent_palette = match header.color_depth {
            AsepriteColorDepth::Indexed => Some(header.transparent_palette),
            _ => None,
        };
        let mut doc = Aseprite {
            dimensions: (header.width, header.height),
            tags: NameMap::new(),
            slices: NameMap::new(),
            layers: Vec::new(),
            frame_count,
            palette: None,
            transparent_palette,
            frame_infos: Vec::new(),
        };
        let ghost start = AsepriteView::empty(header, frame_count);
        let ghost all = views(frames@);
        proof {
            assert(doc@.layers =~= start.layers);
            assert(doc@.frame_delays =~= start.frame_delays);
            assert(all.take(0) =~= Seq::empty());
        }
        let mut frame_idx: usize = 0;
        for frame in it: frames
            invariant
                all == views(it.seq()),
                all == views(frames@),
                raw@.frames == all,
                raw@.header == header,
                start == AsepriteView::empty(header, frame_count),
                frame_count == frames.len(),
                opacity_valid == (header.flags & 0x1 != 0),
                frame_idx == it.index(),
                doc@.parts_well_formed(),
                doc@.frame_count == frame_count,
                doc@.frame_delays.len() == it.index(),
                forall|i: int| 0 <= i < all.len() ==> (#[trigger] all[i]).well_formed(),
                start.with_frames(opacity_valid, all.take(it.index() as int)) == Ok::<
                    AsepriteView,
                    AsepriteError,
                >(doc@),
        {
            let ghost i = it.index() as int;
            let ghost so_far = doc@;
            doc.frame_infos.push(AsepriteFrameInfo { delay_ms: frame.duration_ms as usize });
            proof {
                assert(all.take(i + 1).drop_last() =~= all.take(i));
                assert(all.take(i + 1).last() == frame@);
                assert(doc@.frame_delays =~= so_far.with_delay(frame.duration_ms).frame_delays);
                assert(doc@ == so_far.with_delay(frame.duration_ms));
                assert(all[i].well_formed());
                assert forall|k: int| 0 <= k < frame.chunks.len() implies (
                #[trigger] frame.chunks[k])@.well_formed() by {
                    assert(all[i].chunks[k] == frame.chunks[k]@);
                }
            }
            match doc.add_chunks(opacity_valid, frame_idx, frame.chunks) {
                Ok(_) => {},
                Err(e) => {
                    proof {
                        lemma_assembly_error_stays(start, opacity_valid, all, i + 1);
                    }
                    return Err(e);
                },
            }
            frame_idx += 1;
        }
        proof {
            assert(all.take(all.len() as int) =~= all);
        }
        Ok(doc)
    }
}

/// Draws a grid of pixels onto an image, column by column from the left,
/// each from the top. Pixels that would fall off the image are left out.
fn write_to_image(
    image: RasterImage,
    x: i16,
    y: i16,
    width: u16,
    height: u16,
    pixels: &Vec<AsepritePixel>,
    palette: Option<&AsepritePalette>,
    transparent_palette: Option<u8>,
) -> (res: Result<RasterImage, AsepriteError>)
    requires
        pixels@.len() == width * height,
    ensures
        match res {
            Ok(drawn) => image@.draw_cel(
                CelImage { x, y, width, height, pixels: pixels@ },
                Colors { palette: crate::raw::palette_view(palette), transparent_palette },
            ) == Ok::<RasterView, AsepriteError>(drawn@),
            Err(e) => image@.draw_cel(
                CelImage { x, y, width, height, pixels: pixels@ },
                Colors { palette: crate::raw::palette_view(palette), transparent_palette },
            ) == Err::<RasterView, AsepriteError>(e),
        },
{
    let ghost cel = CelImage { x, y, width, height, pixels: pixels@ };
    let ghost colors = Colors { palette: crate::raw::palette_view(palette), transparent_palette };
    let ghost start = image@;
    let image_width = image.width();
    let image_height = image.height();
    let mut canvas = image;
    let mut column: u16 = 0;
    while column < width
        invariant
            column <= width,
            cel == (CelImage { x, y, width, height, pixels: pixels@ }),
            colors == (Colors { palette: crate::raw::palette_view(palette), transparent_palette }),
            pixels@.len() == width * height,
            start == image@,
            canvas@.width == image_width,
            canvas@.height == image_height,
            start.draw_columns(cel, colors, column as nat) == Ok::<RasterView, AsepriteError>(
                canvas@,
            ),
        decreases width - column,
    {
        let ghost top = canvas@;
        let mut row: u16 = 0;
        while row < height
            invariant
                row <= height,
                column < width,
                cel == (CelImage { x, y, width, height, pixels: pixels@ }),
                colors == (Colors {
                    palette: crate::raw::palette_view(palette),
                    transparent_palette,
                }),
                pixels@.len() == width * height,
                start == image@,
                canvas@.width == image_width,
                canvas@.height == image_height,
                start.draw_columns(cel, colors, column as nat) == Ok::<RasterView, AsepriteError>(
                    top,
                ),
                top.draw_column(cel, colors, column as int, row as nat) == Ok::<
                    RasterView,
                    AsepriteError,
                >(canvas@),
            decreases height - row,
        {
            let to_x: i32 = x as i32 + column as i32;
            let to_y: i32 = y as i32 + row as i32;
            if to_x >= 0 && to_y >= 0 && (to_x as u32) < image_width && (to_y as u32)
                < image_height {
                proof {
                    lemma_pixel_in_bounds(width as int, height as int, column as int, row as int);
                    assert(row * width == (row as int) * (width as int));
                    assert(0 <= (row as int) * (width as int) <= 0xffff * 0xffff)
                        by (nonlinear_arith)
                        requires
                            0 <= row <= 0xffff,
                            0 <= width <= 0xffff,
                    ;
                }
                let index: usize = column as usize + (row as usize) * (width as usize);
                match pixels[index].get_rgba(palette, transparent_palette) {
                    Ok(rgba) => {
                        canvas = canvas.blend_pixel(to_x as u32, to_y as u32, rgba);
                    },
                    Err(e) => {
                        proof {
                            lemma_column_error_stays(
                                top,
                                cel,
                                colors,
                                column as int,
                                (row + 1) as nat,
                                height as nat,
                            );
                            lemma_columns_error_stays(
                                start,
                                cel,
                                colors,
                                (column + 1) as nat,
                                width as nat,
                            );
                        }
                        return Err(e);
                    },
                }
            }
            row += 1;
        }
        column += 1;
    }
    Ok(canvas)
}

/// Draws what a visible normal layer shows at a frame.
fn draw_layer(aseprite: &Aseprite, index: usize, image: RasterImage, frame: u16) -> (res: Result<
    RasterImage,
    AsepriteError,
>)
    requires
        index < aseprite@.layers.len(),
    ensures
        match res {
            Ok(drawn) => image@.draw_layer(aseprite@, aseprite@.layers[index as int], frame as usize)
                == Ok::<RasterView, AsepriteError>(drawn@),
            Err(e) => image@.draw_layer(aseprite@, aseprite@.layers[index as int], frame as usize)
                == Err::<RasterView, AsepriteError>(e),
        },
{
    let layer = &aseprite.layers[index];
    assert(aseprite@.layers[index as int] == layer@);
    if !layer.is_visible() || layer.is_group() {
        return Ok(image);
    }
    let palette = aseprite.palette.as_ref();
    let transparent_palette = aseprite.transparent_palette;
    assert(crate::raw::palette_view(palette) == aseprite@.palette);
    match layer.get_cel(frame as usize) {
        Ok(cel) => {
            proof {
                use_type_invariant(cel);
            }
            match &cel.raw_cel {
                RawAsepriteCel::Raw { width, height, pixels } => write_to_image(
                    image,
                    cel.x,
                    cel.y,
                    *width,
                    *height,
                    pixels,
                    palette,
                    transparent_palette,
                ),
                RawAsepriteCel::Compressed { width, height, pixels } => write_to_image(
                    image,
                    cel.x,
                    cel.y,
                    *width,
                    *height,
                    pixels,
                    palette,
                    transparent_palette,
                ),
                RawAsepriteCel::Linked { frame_position } => {
                    match layer.get_cel(*frame_position as usize) {
                        Ok(target) => {
                            proof {
                                use_type_invariant(target);
                            }
                            match &target.raw_cel {
                                RawAsepriteCel::Raw { width, height, pixels } => write_to_image(
                                    image,
                                    cel.x,
                                    cel.y,
                                    *width,
                                    *height,
                                    pixels,
                                    palette,
                                    transparent_palette,
                                ),
                                RawAsepriteCel::Compressed {
                                    width,
                                    height,
                                    pixels,
                                } => write_to_image(
                                    image,
                                    cel.x,
                                    cel.y,
                                    *width,
                                    *height,
                                    pixels,
                                    palette,
                                    transparent_palette,
                                ),
                                RawAsepriteCel::Linked { frame_position } => Err(
                                    AsepriteError::InvalidConfiguration(
                                        AsepriteInvalidError::InvalidFrame(
                                            *frame_position as usize,
                                        ),
                                    ),
                                ),
                            }
                        },
                        Err(e) => Err(e),
                    }
                },
            }
        },
        Err(_) => {
            // The transparent grid that stands for the missing cel changes no color.
            let _width = image.width();
            proof {
                lemma_blank_cel_changes_nothing(
                    image@,
                    aseprite@.width,
                    aseprite@.height,
                    aseprite@.colors(),
                );
            }
            Ok(image)
        },
    }
}

/// Composites one frame of a document: every visible layer that is not a
/// group is drawn onto a transparent canvas, from the lowest id up.
pub fn image_for_frame(aseprite: &Aseprite, frame: u16) -> (res: Result<
    RasterImage,
    AsepriteError,
>)
    requires
        4 * aseprite@.width * aseprite@.height <= usize::MAX,
    ensures
        match res {
            Ok(image) => aseprite@.composite(frame) == Ok::<RasterView, AsepriteError>(image@)
                && image@.width == aseprite@.width && image@.height == aseprite@.height
                && image@.well_formed(),
            Err(e) => aseprite@.composite(frame) == Err::<RasterView, AsepriteError>(e),
        },
{
    proof {
        crate::compose::lemma_composite_size(aseprite@, frame);
    }
    let (width, height) = aseprite.dimensions;
    let mut image = RasterImage::new(width as u32, height as u32);
    let ghost start = image@;
    let count = aseprite.layers.len();
    let mut index: usize = 0;
    while index < count
        invariant
            index <= count,
            count == aseprite@.layers.len(),
            start == RasterView::blank(aseprite@.width as u32, aseprite@.height as u32),
            start.draw_layers(aseprite@, frame as usize, index as nat) == Ok::<
                RasterView,
                AsepriteError,
            >(image@),
        decreases count - index,
    {
        match draw_layer(aseprite, index, image, frame) {
            Ok(drawn) => {
                image = drawn;
            },
            Err(e) => {
                proof {
                    lemma_layers_error_stays(
                        start,
                        aseprite@,
                        frame as usize,
                        (index + 1) as nat,
                        count as nat,
                    );
                }
                return Err(e);
            },
        }
        index += 1;
    }
    Ok(image)
}

/// A single slice image
///
/// Only contains nine-patch info if the slice also contained one
#[allow(missing_docs)]
#[derive(Debug)]
pub struct AsepriteSliceImage {
    pub image: RasterImage,
    pub nine_slices: Option<Vec<(NineSlice, RasterImage)>>,
}

/// The labeled images of a list, as views.
pub open spec fn patch_views(parts: Seq<(NineSlice, RasterImage)>) -> Seq<(NineSlice, RasterView)> {
    Seq::new(parts.len(), |i: int| (parts[i].0, parts[i].1@))
}

impl View for AsepriteSliceImage {
    type V = AsepriteSliceImageView;

    open spec fn view(&self) -> AsepriteSliceImageView {
        AsepriteSliceImageView {
            image: self.image@,
            nine_slices: match self.nine_slices {
                Some(parts) => Some(patch_views(parts@)),
                None => None,
            },
        }
    }
}

impl Clone for AsepriteSliceImage {
    fn clone(&self) -> (copy: AsepriteSliceImage)
        ensures
            copy@ == self@,
    {
        let nine_slices = match &self.nine_slices {
            Some(parts) => {
                let mut copies: Vec<(NineSlice, RasterImage)> = Vec::new();
                let mut k: usize = 0;
                while k < parts.len()
                    invariant
                        k <= parts.len(),
                        copies@.len() == k,
                        forall|i: int|
                            0 <= i < k ==> (#[trigger] copies@[i]).0 == parts@[i].0 && copies@[i].1@
                                == parts@[i].1@,
                    decreases parts.len() - k,
                {
                    let label = parts[k].0;
                    let image = parts[k].1.clone();
                    copies.push((label, image));
                    k += 1;
                }
                assert(patch_views(copies@) =~= patch_views(parts@));
                Some(copies)
            },
            None => None,
        };
        AsepriteSliceImage { image: self.image.clone(), nine_slices }
    }
}

/// Cuts the image of a nine-patch slice into its nine labeled parts.
fn cut_nine_slices(
    image: &RasterImage,
    slice_width: u32,
    slice_height: u32,
    info: &AsepriteNinePatchInfo,
) -> (parts: Vec<(NineSlice, RasterImage)>)
    ensures
        patch_views(parts@) == nine_patches(image@, slice_width, slice_height, *info),
{
    let order = nine_slices();
    let mut parts: Vec<(NineSlice, RasterImage)> = Vec::new();
    let mut i: usize = 0;
    while i < 9
        invariant
            i <= 9,
            order@ == crate::nine_patch::nine_slice_order(),
            parts.len() == i,
            forall|k: int|
                0 <= k < i ==> (#[trigger] parts[k]).0 == order[k] && parts[k].1@
                    == image@.crop_rect(
                    crate::nine_patch::nine_patch_rect(order[k], slice_width, slice_height, *info),
                ),
        decreases 9 - i,
    {
        let which = order[i];
        let rect = nine_patch_rect_of(which, slice_width, slice_height, info);
        let part = image.crop(rect.x, rect.y, rect.width, rect.height);
        parts.push((which, part));
        i += 1;
    }
    assert(patch_views(parts@) =~= nine_patches(image@, slice_width, slice_height, *info));
    parts
}

/// The image of one slice of a document.
fn slice_image(aseprite: &Aseprite, slice: &AsepriteSlice) -> (res: Result<
    AsepriteSliceImage,
    AsepriteError,
>)
    requires
        4 * aseprite@.width * aseprite@.height <= usize::MAX,
    ensures
        match res {
            Ok(image) => aseprite@.slice_image(slice@) == Ok::<
                AsepriteSliceImageView,
                AsepriteError,
            >(image@),
            Err(e) => aseprite@.slice_image(slice@) == Err::<AsepriteSliceImageView, AsepriteError>(
                e,
            ),
        },
{
    let frame = match image_for_frame(aseprite, slice.valid_frame) {
        Ok(frame) => frame,
        Err(e) => {
            return Err(e);
        },
    };
    let x: u32 = if slice.position_x < 0 {
        0
    } else {
        slice.position_x as u32
    };
    let y: u32 = if slice.position_y < 0 {
        0
    } else {
        slice.position_y as u32
    };
    let image = frame.crop(x, y, slice.width, slice.height);
    let nine_slices = match &slice.nine_patch_info {
        Some(info) => Some(cut_nine_slices(&image, slice.width, slice.height, info)),
        None => None,
    };
    Ok(AsepriteSliceImage { image, nine_slices })
}

/// All the tags defined in a document
pub struct AsepriteTags<'a> {
    tags: &'a NameMap<AsepriteTag>,
}

impl<'a> View for AsepriteTags<'a> {
    type V = Map<Seq<char>, AsepriteTagView>;

    closed spec fn view(&self) -> Map<Seq<char>, AsepriteTagView> {
        self.tags@
    }
}

impl<'a> AsepriteTags<'a> {
    /// The names of the tags, in the order in which they first came in.
    pub closed spec fn names(&self) -> Seq<Seq<char>> {
        self.tags.names()
    }

    /// Get a tag defined by its name
    pub fn get_by_name(&self, name: &str) -> (found: Option<&'a AsepriteTag>)
        ensures
            match found {
                Some(tag) => self@.contains_key(name@) && self@[name@] == tag@,
                None => !self@.contains_key(name@),
            },
    {
        self.tags.get(name)
    }

    /// Get all available tags: one for each name of the table, each name
    /// once.
    pub fn all(&self) -> (tags: Vec<&'a AsepriteTag>)
        ensures
            tags.len() == self.names().len(),
            self.names().no_duplicates(),
            forall|name: Seq<char>| #[trigger]
                self@.contains_key(name) <==> self.names().contains(name),
            forall|i: int|
                0 <= i < tags.len() ==> self@.contains_key(#[trigger] self.names()[i])
                    && self@[self.names()[i]] == tags[i]@,
    {
        let count = self.tags.len();
        let mut tags: Vec<&'a AsepriteTag> = Vec::new();
        let mut i: usize = 0;
        while i < count
            invariant
                i <= count,
                count == self.tags.spec_len(),
                count == self.names().len(),
                tags.len() == i,
                forall|k: int|
                    0 <= k < i ==> self@.contains_key(#[trigger] self.names()[k])
                        && self@[self.names()[k]] == tags[k]@,
            decreases count - i,
        {
            tags.push(self.tags.value_at(i));
            i += 1;
        }
        tags
    }
}

/// The layers inside a document
pub struct AsepriteLayers<'a> {
    layers: &'a Vec<AsepriteLayer>,
}

impl<'a> View for AsepriteLayers<'a> {
    type V = Seq<AsepriteLayerView>;

    closed spec fn view(&self) -> Seq<AsepriteLayerView> {
        views(self.layers@)
    }
}

impl<'a> AsepriteLayers<'a> {
    /// Get a layer by its name: the one with the lowest id, where several
    /// have the name.
    ///
    /// If you have its id, prefer fetching it using [`get_by_id`]
    ///
    /// [`get_by_id`]: AsepriteLayers::get_by_id
    pub fn get_by_name(&self, name: &str) -> (found: Option<&'a AsepriteLayer>)
        ensures
            match found {
                Some(layer) => exists|i: int|
                    0 <= i < self@.len() && #[trigger] self@[i] == layer@ && layer@.name() == name@
                        && forall|k: int| 0 <= k < i ==> (#[trigger] self@[k]).name() != name@,
                None => forall|k: int| 0 <= k < self@.len() ==> (#[trigger] self@[k]).name()
                    != name@,
            },
    {
        let wanted = name.to_owned();
        let count = self.layers.len();
        let mut i: usize = 0;
        while i < count
            invariant
                i <= count,
                count == self.layers.len(),
                wanted@ == name@,
                forall|k: int| 0 <= k < i ==> (#[trigger] self@[k]).name() != name@,
            decreases count - i,
        {
            let layer = &self.layers[i];
            assert(self@[i as int] == layer@);
            let layer_name = layer.name().to_owned();
            if layer_name == wanted {
                return Some(layer);
            }
            i += 1;
        }
        None
    }

    /// Get a layer by its id
    pub fn get_by_id(&self, id: usize) -> (found: Option<&'a AsepriteLayer>)
        ensures
            match found {
                Some(layer) => id < self@.len() && self@[id as int] == layer@,
                None => id >= self@.len(),
            },
    {
        if id < self.layers.len() {
            Some(&self.layers[id])
        } else {
            None
        }
    }
}

/// The frames contained in a document
pub struct AsepriteFrames<'a> {
    aseprite: &'a Aseprite,
}

impl<'a> View for AsepriteFrames<'a> {
    type V = AsepriteView;

    closed spec fn view(&self) -> AsepriteView {
        self.aseprite@
    }
}

impl<'a> AsepriteFrames<'a> {
    /// Get a range of frames
    pub fn get_for(&self, range: &Range<u16>) -> (frames: AsepriteFrameRange<'a>)
        ensures
            frames@ == self@,
            frames.spec_start() == range.start,
            frames.spec_end() == range.end,
    {
        AsepriteFrameRange {
            aseprite: self.aseprite,
            range: Range { start: range.start, end: range.end },
        }
    }

    /// Get the amount of frames in this document
    pub fn count(&self) -> (count: usize)
        ensures
            count == self@.frame_count,
    {
        self.aseprite.frame_count
    }
}

/// A range of frames in a document
pub struct AsepriteFrameRange<'a> {
    aseprite: &'a Aseprite,
    range: Range<u16>,
}

impl<'a> View for AsepriteFrameRange<'a> {
    type V = AsepriteView;

    closed spec fn view(&self) -> AsepriteView {
        self.aseprite@
    }
}

impl<'a> AsepriteFrameRange<'a> {
    /// The first frame of the range.
    pub closed spec fn spec_start(&self) -> u16 {
        self.range.start
    }

    /// The frame after the last frame of the range.
    pub closed spec fn spec_end(&self) -> u16 {
        self.range.end
    }

    /// The number of frames in the range.
    pub open spec fn spec_len(&self) -> nat {
        if self.spec_start() <= self.spec_end() {
            (self.spec_end() - self.spec_start()) as nat
        } else {
            0
        }
    }

    /// Get the timings attached to each frame
    pub fn get_infos(&self) -> (res: Result<&'a [AsepriteFrameInfo], AsepriteError>)
        requires
            self.spec_start() <= self.spec_end() <= self@.frame_delays.len(),
        ensures
            res matches Ok(infos) && delays(infos@) == self@.frame_delays.subrange(
                self.spec_start() as int,
                self.spec_end() as int,
            ),
    {
        let infos = vstd::slice::slice_subrange(
            self.aseprite.frame_infos.as_slice(),
            self.range.start as usize,
            self.range.end as usize,
        );
        assert(delays(infos@) =~= self@.frame_delays.subrange(
            self.spec_start() as int,
            self.spec_end() as int,
        ));
        Ok(infos)
    }

    /// Get the images represented by this range
    pub fn get_images(&self) -> (res: Result<Vec<RasterImage>, AsepriteError>)
        requires
            4 * self@.width * self@.height <= usize::MAX,
        ensures
            match res {
                Ok(images) => self@.frame_images(self.spec_start(), self.spec_len()) == Ok::<
                    Seq<RasterView>,
                    AsepriteError,
                >(views(images@)),
                Err(e) => self@.frame_images(self.spec_start(), self.spec_len()) == Err::<
                    Seq<RasterView>,
                    AsepriteError,
                >(e),
            },
    {
        let mut frames: Vec<RasterImage> = Vec::new();
        let start = self.range.start;
        let end = self.range.end;
        let mut frame = start;
        assert(views(frames@) =~= Seq::<RasterView>::empty());
        while frame < end
            invariant
                start == self.spec_start(),
                end == self.spec_end(),
                start <= end ==> start <= frame <= end,
                start > end ==> frame == start,
                4 * self@.width * self@.height <= usize::MAX,
                self@.frame_images(start, (frame - start) as nat) == Ok::<
                    Seq<RasterView>,
                    AsepriteError,
                >(views(frames@)),
            decreases end - frame,
        {
            let ghost before = views(frames@);
            match image_for_frame(self.aseprite, frame) {
                Ok(image) => {
                    frames.push(image);
                    assert(views(frames@) =~= before.push(image@));
                },
                Err(e) => {
                    proof {
                        crate::compose::lemma_frames_error_stays(
                            self@,
                            start,
                            (frame - start + 1) as nat,
                            self.spec_len(),
                        );
                    }
                    return Err(e);
                },
            }
            frame += 1;
        }
        Ok(frames)
    }
}

/// The slices contained in a document
pub struct AsepriteSlices<'a> {
    aseprite: &'a Aseprite,
}

impl<'a> View for AsepriteSlices<'a> {
    type V = AsepriteView;

    closed spec fn view(&self) -> AsepriteView {
        self.aseprite@
    }
}

impl<'a> AsepriteSlices<'a> {
    /// The names of the slices, in the order in which they first came in.
    pub closed spec fn names(&self) -> Seq<Seq<char>> {
        self.aseprite.slices.names()
    }

    /// Get a slice by name
    pub fn get_by_name(&self, name: &str) -> (found: Option<&'a AsepriteSlice>)
        ensures
            match found {
                Some(slice) => self@.slices.contains_key(name@) && self@.slices[name@] == slice@,
                None => !self@.slices.contains_key(name@),
            },
    {
        self.aseprite.slices.get(name)
    }

    /// Get all slices in this document: one for each name of the table,
    /// each name once.
    pub fn get_all(&self) -> (slices: Vec<&'a AsepriteSlice>)
        ensures
            slices.len() == self.names().len(),
            self.names().no_duplicates(),
            forall|name: Seq<char>| #[trigger]
                self@.slices.contains_key(name) <==> self.names().contains(name),
            forall|i: int|
                0 <= i < slices.len() ==> self@.slices.contains_key(#[trigger] self.names()[i])
                    && self@.slices[self.names()[i]] == slices[i]@,
    {
        let count = self.aseprite.slices.len();
        let mut slices: Vec<&'a AsepriteSlice> = Vec::new();
        let mut i: usize = 0;
        while i < count
            invariant
                i <= count,
                count == self.aseprite.slices.spec_len(),
                count == self.names().len(),
                slices.len() == i,
                forall|k: int|
                    0 <= k < i ==> self@.slices.contains_key(#[trigger] self.names()[k])
                        && self@.slices[self.names()[k]] == slices[k]@,
            decreases count - i,
        {
            slices.push(self.aseprite.slices.value_at(i));
            i += 1;
        }
        slices
    }

    /// Get the images represented by the slices
    pub fn get_images(&self, wanted_slices: &[&AsepriteSlice]) -> (res: Result<
        Vec<AsepriteSliceImage>,
        AsepriteError,
    >)
        requires
            4 * self@.width * self@.height <= usize::MAX,
        ensures
            match res {
                Ok(images) => self@.slice_images(views(wanted_slices@)) == Ok::<
                    Seq<AsepriteSliceImageView>,
                    AsepriteError,
                >(views(images@)),
                Err(e) => self@.slice_images(views(wanted_slices@)) == Err::<
                    Seq<AsepriteSliceImageView>,
                    AsepriteError,
                >(e),
            },
    {
        let ghost all = views(wanted_slices@);
        let mut slices: Vec<AsepriteSliceImage> = Vec::new();
        let count = wanted_slices.len();
        let mut i: usize = 0;
        assert(views(slices@) =~= Seq::<AsepriteSliceImageView>::empty());
        assert(all.take(0) =~= Seq::<AsepriteSliceView>::empty());
        while i < count
            invariant
                i <= count,
                count == wanted_slices@.len(),
                all == views(wanted_slices@),
                4 * self@.width * self@.height <= usize::MAX,
                self@.slice_images(all.take(i as int)) == Ok::<
                    Seq<AsepriteSliceImageView>,
                    AsepriteError,
                >(views(slices@)),
            decreases count - i,
        {
            let ghost before = views(slices@);
            proof {
                assert(all.take(i + 1).drop_last() =~= all.take(i as int));
                assert(all.take(i + 1).last() == wanted_slices@[i as int]@);
            }
            match slice_image(self.aseprite, wanted_slices[i]) {
                Ok(image) => {
                    slices.push(image);
                    assert(views(slices@) =~= before.push(image@));
                },
                Err(e) => {
                    proof {
                        lemma_slices_error_stays(self@, all, i + 1);
                    }
                    return Err(e);
                },
            }
            i += 1;
        }
        proof {
            assert(all.take(count as int) =~= all);
        }
        Ok(slices)
    }
}

impl Aseprite {
    /// Get the [`AsepriteTag`]s defined in this document
    pub fn tags(&self) -> (tags: AsepriteTags<'_>)
        ensures
            tags@ == self@.tags,
    {
        AsepriteTags { tags: &self.tags }
    }

    /// Get the associated [`AsepriteLayer`]s defined in this document
    pub fn layers(&self) -> (layers: AsepriteLayers<'_>)
        ensures
            layers@ == self@.layers,
    {
        AsepriteLayers { layers: &self.layers }
    }

    /// Get the frames inside this document
    pub fn frames(&self) -> (frames: AsepriteFrames<'_>)
        ensures
            frames@ == self@,
    {
        AsepriteFrames { aseprite: self }
    }

    /// Get infos about the contained frames
    pub fn frame_infos(&self) -> (infos: &[AsepriteFrameInfo])
        ensures
            delays(infos@) == self@.frame_delays,
    {
        self.frame_infos.as_slice()
    }

    /// Get the slices inside this document
    pub fn slices(&self) -> (slices: AsepriteSlices<'_>)
        ensures
            slices@ == self@,
    {
        AsepriteSlices { aseprite: self }
    }

    /// Whether an image of the canvas fits into memory: whether four bytes
    /// for each of its pixels can be counted in a `usize`.
    pub fn canvas_fits(&self) -> (fits: bool)
        ensures
            fits == (4 * self@.width * self@.height <= usize::MAX),
    {
        let (width, height) = self.dimensions;
        assert(0 <= width * height <= 0xffff * 0xffff) by (nonlinear_arith)
            requires
                0 <= width <= 0xffff,
                0 <= height <= 0xffff,
        ;
        assert(4 * width * height == 4 * (width * height)) by (nonlinear_arith);
        let bytes: u64 = 4 * ((width as u64) * (height as u64));
        bytes <= usize::MAX as u64
    }
}

/// The loaded file without image data
#[derive(Debug)]
#[allow(missing_docs)]
pub struct AsepriteInfo {
    pub dimensions: (u16, u16),
    pub tags: NameMap<AsepriteTag>,
    pub slices: NameMap<AsepriteSlice>,
    pub frame_count: usize,
    pub palette: Option<AsepritePalette>,
    pub transparent_palette: Option<u8>,
    pub frame_infos: Vec<AsepriteFrameInfo>,
}

impl View for AsepriteInfo {
    type V = AsepriteInfoView;

    open spec fn view(&self) -> AsepriteInfoView {
        AsepriteInfoView {
            width: self.dimensions.0,
            height: self.dimensions.1,
            tags: self.tags@,
            slices: self.slices@,
            frame_count: self.frame_count,
            palette: palette_colors(self.palette),
            transparent_palette: self.transparent_palette,
            frame_delays: delays(self.frame_infos@),
        }
    }
}

impl Clone for AsepriteInfo {
    fn clone(&self) -> (copy: AsepriteInfo)
        ensures
            copy@ == self@,
    {
        let tags = self.tags.clone();
        let slices = self.slices.clone();
        let palette = self.palette.clone();
        let frame_infos = self.frame_infos.clone();
        assert(delays(frame_infos@) =~= delays(self.frame_infos@));
        AsepriteInfo {
            dimensions: self.dimensions,
            tags,
            slices,
            frame_count: self.frame_count,
            palette,
            transparent_palette: self.transparent_palette,
            frame_infos,
        }
    }
}

impl Aseprite {
    /// The document without its image data.
    pub fn into_info(self) -> (info: AsepriteInfo)
        ensures
            info@ == self@.info(),
    {
        AsepriteInfo {
            dimensions: self.dimensions,
            tags: self.tags,
            slices: self.slices,
            frame_count: self.frame_count,
            palette: self.palette,
            transparent_palette: self.transparent_palette,
            frame_infos: self.frame_infos,
        }
    }
}

/// The info that a document turns into.
pub closed spec fn info_of(aseprite: Aseprite) -> AsepriteInfo {
    AsepriteInfo {
        dimensions: aseprite.dimensions,
        tags: aseprite.tags,
        slices: aseprite.slices,
        frame_count: aseprite.frame_count,
        palette: aseprite.palette,
        transparent_palette: aseprite.transparent_palette,
        frame_infos: aseprite.frame_infos,
    }
}

/// The info that a document turns into holds what the document holds,
/// without the layers.
pub proof fn lemma_info_of(aseprite: Aseprite)
    ensures
        info_of(aseprite)@ == aseprite@.info(),
{
}

impl From<Aseprite> for AsepriteInfo {
    fn from(aseprite: Aseprite) -> (info: AsepriteInfo)
        ensures
            info@ == aseprite@.info(),
    {
        AsepriteInfo {
            dimensions: aseprite.dimensions,
            tags: aseprite.tags,
            slices: aseprite.slices,
            frame_count: aseprite.frame_count,
            palette: aseprite.palette,
            transparent_palette: aseprite.transparent_palette,
            frame_infos: aseprite.frame_infos,
        }
    }
}

impl vstd::std_specs::convert::FromSpecImpl<Aseprite> for AsepriteInfo {
    open spec fn obeys_from_spec() -> bool {
        true
    }

    open spec fn from_spec(aseprite: Aseprite) -> AsepriteInfo {
        info_of(aseprite)
    }
}

impl Aseprite {
    /// Construct an [`Aseprite`] from the bytes of a file
    pub fn from_bytes(buffer: &[u8]) -> (res: Result<Aseprite, AsepriteError>)
        ensures
            match res {
                Ok(doc) => decode(buffer@) == Ok::<AsepriteView, AsepriteError>(doc@)
                    && doc@.well_formed(),
                Err(e) => decode(buffer@) == Err::<AsepriteView, AsepriteError>(e),
            },
    {
        let raw_aseprite = match crate::decode::read_aseprite(buffer) {
            Ok(raw) => raw,
            Err(e) => {
                return Err(e);
            },
        };
        Aseprite::from_raw(raw_aseprite)
    }
}

impl<'a, 'r> std::ops::Index<&'r str> for AsepriteTags<'a> {
    type Output = AsepriteTag;

    /// The tag of a name that the document has.
    fn index(&self, index: &'r str) -> (tag: &AsepriteTag)
        ensures
            tag@ == self@[index@],
    {
        match self.get_by_name(index) {
            Some(tag) => tag,
            None => vstd::pervasive::unreached(),
        }
    }
}

impl<'a, 'r> vstd::std_specs::core::IndexSpecImpl<&'r str> for AsepriteTags<'a> {
    open spec fn index_req(&self, index: &&'r str) -> bool {
        self@.contains_key(index@)
    }
}

} // verus!
