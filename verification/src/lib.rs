//! Decoder, compositor and tag playback for layered sprite animation files.
//!
//! A byte buffer is decoded into a header and frames of chunks ([`decode`],
//! [`chunks`], [`raw`]). The chunks are assembled into an immutable document
//! ([`computed`], with its mathematical model in [`model`]). A frame of the
//! document is composited into an RGBA raster ([`compose`], [`raster`]), and
//! named slices are cropped out of it, nine-patch slices into nine parts
//! ([`nine_patch`]). A small state machine plays the tagged frame ranges of
//! a document ([`anim`]).
//!
//! Every function states what it returns over these models, and the
//! statements are proved. What is believed without proof is what two
//! outside functions compute: the inflation of zlib streams and the blending
//! of two colors that are neither transparent nor opaque; and that the
//! standard library decodes UTF-8.

pub mod anim;
pub mod chunks;
pub mod compose;
pub mod computed;
pub mod decode;
pub mod error;
pub mod inflate;
pub mod model;
pub mod nine_patch;
pub mod primitives;
pub mod raster;
pub mod raw;
pub mod slice;
pub mod table;

pub use computed::{
    image_for_frame,
    Aseprite,
    AsepriteCel,
    AsepriteFrameInfo,
    AsepriteFrameRange,
    AsepriteFrames,
    AsepriteInfo,
    AsepriteLayer,
    AsepriteLayers,
    AsepritePalette,
    AsepriteSlice,
    AsepriteSliceImage,
    AsepriteSlices,
    AsepriteTag,
    AsepriteTags,
};
pub use nine_patch::NineSlice;
pub use raster::RasterImage;
