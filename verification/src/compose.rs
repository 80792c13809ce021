//! What it means to composite a frame: the layers of a document are drawn
//! onto a transparent canvas from the lowest id to the highest.

use vstd::prelude::*;

use crate::model::{AsepriteLayerView, AsepriteSliceView, AsepriteView};
use crate::error::{AsepriteError, AsepriteInvalidError};
use crate::nine_patch::{
    center_fits,
    lemma_nine_patch_divides_slice,
    nine_patch_rect,
    nine_slice_order,
    NineSlice,
};
use crate::raster::{blend_over, RasterView};
use crate::raw::{AsepriteColor, AsepriteNinePatchInfo, AsepritePixel, RawAsepriteCelView};

verus! {

/// A grid of pixels with the place of its top left corner on the canvas.
pub struct CelImage {
    /// Column of the canvas in which the first column stands
    pub x: i16,
    /// Row of the canvas in which the first row stands
    pub y: i16,
    /// Width in pixels
    pub width: u16,
    /// Height in pixels
    pub height: u16,
    /// The pixels, row by row
    pub pixels: Seq<AsepritePixel>,
}

/// The pixel that is fully transparent black.
pub open spec fn blank_pixel() -> AsepritePixel {
    AsepritePixel::RGBA(AsepriteColor { red: 0, green: 0, blue: 0, alpha: 0 })
}

impl CelImage {
    /// There is one pixel for each position of the grid.
    pub open spec fn well_formed(self) -> bool {
        self.pixels.len() == self.width * self.height
    }

    /// A fully transparent grid of the given size in the canvas's corner.
    pub open spec fn blank(width: u16, height: u16) -> CelImage {
        CelImage {
            x: 0,
            y: 0,
            width,
            height,
            pixels: Seq::new((width * height) as nat, |i: int| blank_pixel()),
        }
    }

    /// The pixel in column `x` of row `y` of the grid.
    pub open spec fn pixel(self, x: int, y: int) -> AsepritePixel {
        self.pixels[x + y * self.width]
    }
}

impl AsepriteLayerView {
    /// What a normal layer shows at a frame.
    ///
    /// Where the layer has no cel at the frame, it shows a fully transparent
    /// grid of the canvas's size. A cel with pixels shows them at its place.
    /// A linked cel shows, at its own place, the pixels of the cel at the
    /// frame that it names; it is an error if there is no cel there or if
    /// that cel is linked too.
    pub open spec fn shown(self, frame: usize, width: u16, height: u16) -> Result<
        CelImage,
        AsepriteError,
    > {
        match self.get_cel(frame) {
            Err(_) => Ok(CelImage::blank(width, height)),
            Ok(cel) => match cel.raw_cel {
                RawAsepriteCelView::Raw { width, height, pixels } => Ok(
                    CelImage { x: cel.x, y: cel.y, width, height, pixels },
                ),
                RawAsepriteCelView::Compressed { width, height, pixels } => Ok(
                    CelImage { x: cel.x, y: cel.y, width, height, pixels },
                ),
                RawAsepriteCelView::Linked { frame_position } => match self.get_cel(
                    frame_position as usize,
                ) {
                    Err(e) => Err(e),
                    Ok(target) => match target.raw_cel {
                        RawAsepriteCelView::Raw { width, height, pixels } => Ok(
                            CelImage { x: cel.x, y: cel.y, width, height, pixels },
                        ),
                        RawAsepriteCelView::Compressed { width, height, pixels } => Ok(
                            CelImage { x: cel.x, y: cel.y, width, height, pixels },
                        ),
                        RawAsepriteCelView::Linked { frame_position } => Err(
                            AsepriteError::InvalidConfiguration(
                                AsepriteInvalidError::InvalidFrame(frame_position as usize),
                            ),
                        ),
                    },
                },
            },
        }
    }
}

/// The colors under which the pixels of a document are resolved.
pub struct Colors {
    /// The palette, if any
    pub palette: Option<Seq<AsepriteColor>>,
    /// The palette index that stands for "transparent", if any
    pub transparent_palette: Option<u8>,
}

impl RasterView {
    /// Whether column `x` of row `y` lies on the canvas.
    pub open spec fn has(self, x: int, y: int) -> bool {
        0 <= x < self.width && 0 <= y < self.height
    }

    /// The canvas after the pixel in column `x` of row `y` of a grid has
    /// been drawn.
    ///
    /// The pixel goes to the grid's place plus its own. Where that lies off
    /// the canvas, nothing is drawn and the pixel is not resolved. Otherwise
    /// its color is laid over what the canvas has there.
    pub open spec fn draw_pixel(self, cel: CelImage, colors: Colors, x: int, y: int) -> Result<
        RasterView,
        AsepriteError,
    > {
        let to_x = cel.x + x;
        let to_y = cel.y + y;
        if !self.has(to_x, to_y) {
            Ok(self)
        } else {
            match cel.pixel(x, y).spec_rgba(colors.palette, colors.transparent_palette) {
                Ok(rgba) => Ok(
                    self.with_pixel(to_x, to_y, blend_over(self.pixel(to_x, to_y), rgba)),
                ),
                Err(e) => Err(e),
            }
        }
    }

    /// The canvas after the first `rows` pixels of column `x` of a grid have
    /// been drawn, from the top.
    pub open spec fn draw_column(self, cel: CelImage, colors: Colors, x: int, rows: nat) -> Result<
        RasterView,
        AsepriteError,
    >
        decreases rows,
    {
        if rows == 0 {
            Ok(self)
        } else {
            match self.draw_column(cel, colors, x, (rows - 1) as nat) {
                Ok(canvas) => canvas.draw_pixel(cel, colors, x, rows - 1),
                Err(e) => Err(e),
            }
        }
    }

    /// The canvas after the first `columns` columns of a grid have been
    /// drawn, from the left.
    pub open spec fn draw_columns(self, cel: CelImage, colors: Colors, columns: nat) -> Result<
        RasterView,
        AsepriteError,
    >
        decreases columns,
    {
        if columns == 0 {
            Ok(self)
        } else {
            match self.draw_columns(cel, colors, (columns - 1) as nat) {
                Ok(canvas) => canvas.draw_column(cel, colors, columns - 1, cel.height as nat),
                Err(e) => Err(e),
            }
        }
    }

    /// The canvas after a grid has been drawn: column by column from the
    /// left, each from the top. The first pixel that cannot be resolved ends
    /// the drawing with its error.
    pub open spec fn draw_cel(self, cel: CelImage, colors: Colors) -> Result<
        RasterView,
        AsepriteError,
    > {
        self.draw_columns(cel, colors, cel.width as nat)
    }

    /// The canvas after a layer has been drawn at a frame. An invisible
    /// layer and a group leave it as it is.
    pub open spec fn draw_layer(
        self,
        doc: AsepriteView,
        layer: AsepriteLayerView,
        frame: usize,
    ) -> Result<
        RasterView,
        AsepriteError,
    > {
        if !layer.is_visible() || layer is Group {
            Ok(self)
        } else {
            match layer.shown(frame, doc.width, doc.height) {
                Ok(cel) => self.draw_cel(cel, doc.colors()),
                Err(e) => Err(e),
            }
        }
    }

    /// The canvas after the first `count` layers of a document have been
    /// drawn at a frame, from the lowest id up.
    pub open spec fn draw_layers(self, doc: AsepriteView, frame: usize, count: nat) -> Result<
        RasterView,
        AsepriteError,
    >
        decreases count,
    {
        if count == 0 {
            Ok(self)
        } else {
            match self.draw_layers(doc, frame, (count - 1) as nat) {
                Ok(canvas) => canvas.draw_layer(doc, doc.layers[count - 1], frame),
                Err(e) => Err(e),
            }
        }
    }
}

impl AsepriteView {
    /// The colors under which the pixels of the document are resolved.
    pub open spec fn colors(self) -> Colors {
        Colors { palette: self.palette, transparent_palette: self.transparent_palette }
    }

    /// The image of a frame: all layers drawn onto a fully transparent
    /// canvas of the document's size, or the error of the first layer or
    /// pixel that cannot be drawn.
    pub open spec fn composite(self, frame: u16) -> Result<RasterView, AsepriteError> {
        RasterView::blank(self.width as u32, self.height as u32).draw_layers(
            self,
            frame as usize,
            self.layers.len(),
        )
    }
}

/// Drawing a pixel keeps the size of the canvas.
pub proof fn lemma_draw_pixel_keeps_size(
    canvas: RasterView,
    cel: CelImage,
    colors: Colors,
    x: int,
    y: int,
)
    ensures
        canvas.draw_pixel(cel, colors, x, y) matches Ok(after) ==> after.width == canvas.width
            && after.height == canvas.height && after.data.len() == canvas.data.len(),
{
}

/// Once a pixel of a column has given an error, the pixels below it change
/// nothing.
pub proof fn lemma_column_error_stays(
    canvas: RasterView,
    cel: CelImage,
    colors: Colors,
    x: int,
    failed: nat,
    rows: nat,
)
    requires
        failed <= rows,
        canvas.draw_column(cel, colors, x, failed) is Err,
    ensures
        canvas.draw_column(cel, colors, x, rows) == canvas.draw_column(cel, colors, x, failed),
    decreases rows,
{
    if failed < rows {
        lemma_column_error_stays(canvas, cel, colors, x, failed, (rows - 1) as nat);
    }
}

/// Once a column has given an error, the columns right of it change nothing.
pub proof fn lemma_columns_error_stays(
    canvas: RasterView,
    cel: CelImage,
    colors: Colors,
    failed: nat,
    columns: nat,
)
    requires
        failed <= columns,
        canvas.draw_columns(cel, colors, failed) is Err,
    ensures
        canvas.draw_columns(cel, colors, columns) == canvas.draw_columns(cel, colors, failed),
    decreases columns,
{
    if failed < columns {
        lemma_columns_error_stays(canvas, cel, colors, failed, (columns - 1) as nat);
    }
}

/// Once a layer has given an error, the layers above it change nothing.
pub proof fn lemma_layers_error_stays(
    canvas: RasterView,
    doc: AsepriteView,
    frame: usize,
    failed: nat,
    count: nat,
)
    requires
        failed <= count,
        canvas.draw_layers(doc, frame, failed) is Err,
    ensures
        canvas.draw_layers(doc, frame, count) == canvas.draw_layers(doc, frame, failed),
    decreases count,
{
    if failed < count {
        lemma_layers_error_stays(canvas, doc, frame, failed, (count - 1) as nat);
    }
}

/// What a slice image holds: the image of the slice and, for a nine-patch
/// slice, the nine labeled images into which it is divided.
pub struct AsepriteSliceImageView {
    /// The image of the slice
    pub image: RasterView,
    /// The nine parts, in the order in which they are cut out
    pub nine_slices: Option<Seq<(NineSlice, RasterView)>>,
}

/// A coordinate, or 0 where it is negative.
pub open spec fn clamp_to_zero(value: i32) -> u32 {
    if value < 0 {
        0
    } else {
        value as u32
    }
}

/// The nine labeled parts of the image of a nine-patch slice.
///
/// Each part is what the image has under the rectangle of its label.
pub open spec fn nine_patches(
    image: RasterView,
    slice_width: u32,
    slice_height: u32,
    info: AsepriteNinePatchInfo,
) -> Seq<(NineSlice, RasterView)> {
    Seq::new(
        9,
        |i: int|
            (
                nine_slice_order()[i],
                image.crop_rect(
                    nine_patch_rect(nine_slice_order()[i], slice_width, slice_height, info),
                ),
            ),
    )
}

impl AsepriteView {
    /// The image of a slice.
    ///
    /// The frame from which the slice is valid is composited. The image is
    /// what that frame has under the slice's rectangle, after negative
    /// coordinates of its corner have been raised to 0.
    pub open spec fn slice_image(self, slice: AsepriteSliceView) -> Result<
        AsepriteSliceImageView,
        AsepriteError,
    > {
        match self.composite(slice.valid_frame) {
            Ok(frame) => {
                let image = frame.crop(
                    clamp_to_zero(slice.position_x),
                    clamp_to_zero(slice.position_y),
                    slice.width,
                    slice.height,
                );
                Ok(
                    AsepriteSliceImageView {
                        image,
                        nine_slices: match slice.nine_patch_info {
                            Some(info) => Some(
                                nine_patches(image, slice.width, slice.height, info),
                            ),
                            None => None,
                        },
                    },
                )
            },
            Err(e) => Err(e),
        }
    }

    /// The images of a list of slices, in its order, or the error of the
    /// first slice whose frame cannot be composited.
    pub open spec fn slice_images(self, slices: Seq<AsepriteSliceView>) -> Result<
        Seq<AsepriteSliceImageView>,
        AsepriteError,
    >
        decreases slices.len(),
    {
        if slices.len() == 0 {
            Ok(Seq::empty())
        } else {
            match self.slice_images(slices.drop_last()) {
                Ok(images) => match self.slice_image(slices.last()) {
                    Ok(image) => Ok(images.push(image)),
                    Err(e) => Err(e),
                },
                Err(e) => Err(e),
            }
        }
    }

    /// The images of `count` frames from frame `start` on, in their order,
    /// or the error of the first frame that cannot be composited.
    pub open spec fn frame_images(self, start: u16, count: nat) -> Result<
        Seq<RasterView>,
        AsepriteError,
    >
        decreases count,
    {
        if count == 0 {
            Ok(Seq::empty())
        } else {
            match self.frame_images(start, (count - 1) as nat) {
                Ok(images) => match self.composite((start + count - 1) as u16) {
                    Ok(image) => Ok(images.push(image)),
                    Err(e) => Err(e),
                },
                Err(e) => Err(e),
            }
        }
    }
}

/// Once a slice has given an error, the slices after it change nothing.
pub proof fn lemma_slices_error_stays(doc: AsepriteView, slices: Seq<AsepriteSliceView>, failed: int)
    requires
        0 <= failed <= slices.len(),
        doc.slice_images(slices.take(failed)) is Err,
    ensures
        doc.slice_images(slices) == doc.slice_images(slices.take(failed)),
    decreases slices.len() - failed,
{
    if failed == slices.len() {
        assert(slices.take(failed) =~= slices);
    } else {
        assert(slices.take(failed + 1).drop_last() =~= slices.take(failed));
        lemma_slices_error_stays(doc, slices, failed + 1);
    }
}

/// Once a frame has given an error, the frames after it change nothing.
pub proof fn lemma_frames_error_stays(doc: AsepriteView, start: u16, failed: nat, count: nat)
    requires
        failed <= count,
        doc.frame_images(start, failed) is Err,
    ensures
        doc.frame_images(start, count) == doc.frame_images(start, failed),
    decreases count,
{
    if failed < count {
        lemma_frames_error_stays(doc, start, failed, (count - 1) as nat);
    }
}

/// A pixel whose place lies off the canvas is left out: the canvas stays
/// as it is, and the pixel is not even resolved.
pub proof fn lemma_draw_pixel_off_canvas(
    canvas: RasterView,
    cel: CelImage,
    colors: Colors,
    x: int,
    y: int,
)
    requires
        !canvas.has(cel.x + x, cel.y + y),
    ensures
        canvas.draw_pixel(cel, colors, x, y) == Ok::<RasterView, AsepriteError>(canvas),
{
}

/// Two different places of a canvas have different bytes.
pub proof fn lemma_offsets_differ(canvas: RasterView, x: int, y: int, other_x: int, other_y: int)
    requires
        canvas.has(x, y),
        canvas.has(other_x, other_y),
        x != other_x || y != other_y,
    ensures
        canvas.offset(x, y) + 4 <= canvas.offset(other_x, other_y) || canvas.offset(
            other_x,
            other_y,
        ) + 4 <= canvas.offset(x, y),
{
    let width = canvas.width as int;
    if y < other_y {
        assert((y + 1) * width <= other_y * width) by (nonlinear_arith)
            requires
                y + 1 <= other_y,
                0 <= width,
        ;
        assert((y + 1) * width == y * width + width) by (nonlinear_arith);
    } else if other_y < y {
        assert((other_y + 1) * width <= y * width) by (nonlinear_arith)
            requires
                other_y + 1 <= y,
                0 <= width,
        ;
        assert((other_y + 1) * width == other_y * width + width) by (nonlinear_arith);
    }
}

/// Drawing a pixel changes the canvas at the pixel's place only: every
/// other place of the canvas keeps its color.
pub proof fn lemma_draw_pixel_elsewhere(
    canvas: RasterView,
    cel: CelImage,
    colors: Colors,
    x: int,
    y: int,
    other_x: int,
    other_y: int,
)
    requires
        canvas.well_formed(),
        canvas.has(other_x, other_y),
        other_x != cel.x + x || other_y != cel.y + y,
    ensures
        canvas.draw_pixel(cel, colors, x, y) matches Ok(after) ==> after.pixel(other_x, other_y)
            == canvas.pixel(other_x, other_y),
{
    match canvas.draw_pixel(cel, colors, x, y) {
        Ok(after) => {
            if canvas.has(cel.x + x, cel.y + y) {
                lemma_offsets_differ(canvas, cel.x + x, cel.y + y, other_x, other_y);
                crate::raster::lemma_pixel_in_bounds(
                    canvas.width as int,
                    canvas.height as int,
                    other_x,
                    other_y,
                );
                assert(after.pixel(other_x, other_y) =~= canvas.pixel(other_x, other_y));
            }
        },
        Err(_) => {},
    }
}

/// Drawing rows of a column keeps the size of the canvas.
pub proof fn lemma_draw_column_keeps_size(
    canvas: RasterView,
    cel: CelImage,
    colors: Colors,
    x: int,
    rows: nat,
)
    ensures
        canvas.draw_column(cel, colors, x, rows) matches Ok(after) ==> after.width == canvas.width
            && after.height == canvas.height && after.data.len() == canvas.data.len(),
    decreases rows,
{
    if rows > 0 {
        lemma_draw_column_keeps_size(canvas, cel, colors, x, (rows - 1) as nat);
    }
}

/// Drawing columns keeps the size of the canvas.
pub proof fn lemma_draw_columns_keeps_size(
    canvas: RasterView,
    cel: CelImage,
    colors: Colors,
    columns: nat,
)
    ensures
        canvas.draw_columns(cel, colors, columns) matches Ok(after) ==> after.width == canvas.width
            && after.height == canvas.height && after.data.len() == canvas.data.len(),
    decreases columns,
{
    if columns > 0 {
        lemma_draw_columns_keeps_size(canvas, cel, colors, (columns - 1) as nat);
        match canvas.draw_columns(cel, colors, (columns - 1) as nat) {
            Ok(middle) => {
                lemma_draw_column_keeps_size(middle, cel, colors, columns - 1, cel.height as nat);
            },
            Err(_) => {},
        }
    }
}

/// Drawing layers keeps the size of the canvas.
pub proof fn lemma_draw_layers_keeps_size(
    canvas: RasterView,
    doc: AsepriteView,
    frame: usize,
    count: nat,
)
    ensures
        canvas.draw_layers(doc, frame, count) matches Ok(after) ==> after.width == canvas.width
            && after.height == canvas.height && after.data.len() == canvas.data.len(),
    decreases count,
{
    if count > 0 {
        lemma_draw_layers_keeps_size(canvas, doc, frame, (count - 1) as nat);
        match canvas.draw_layers(doc, frame, (count - 1) as nat) {
            Ok(middle) => {
                let layer = doc.layers[count - 1];
                if layer.is_visible() && !(layer is Group) {
                    match layer.shown(frame, doc.width, doc.height) {
                        Ok(cel) => {
                            lemma_draw_columns_keeps_size(
                                middle,
                                cel,
                                doc.colors(),
                                cel.width as nat,
                            );
                        },
                        Err(_) => {},
                    }
                }
            },
            Err(_) => {},
        }
    }
}

/// The image of a frame has the size of the document's canvas, whatever
/// the places and the sizes of the cels are: what falls off the canvas is
/// left out.
pub proof fn lemma_composite_size(doc: AsepriteView, frame: u16)
    ensures
        doc.composite(frame) matches Ok(image) ==> image.width == doc.width && image.height
            == doc.height && image.well_formed(),
{
    lemma_draw_layers_keeps_size(
        RasterView::blank(doc.width as u32, doc.height as u32),
        doc,
        frame as usize,
        doc.layers.len(),
    );
}

impl CelImage {
    /// Whether no position of the grid falls on a canvas of the given size.
    pub open spec fn misses(self, width: u32, height: u32) -> bool {
        ||| self.x >= width
        ||| self.y >= height
        ||| self.x + self.width <= 0
        ||| self.y + self.height <= 0
    }
}

/// Drawing rows of a column that lies off the canvas leaves the canvas as
/// it is.
proof fn lemma_missed_column(canvas: RasterView, cel: CelImage, colors: Colors, x: int, rows: nat)
    requires
        cel.misses(canvas.width, canvas.height),
        0 <= x < cel.width,
        rows <= cel.height,
    ensures
        canvas.draw_column(cel, colors, x, rows) == Ok::<RasterView, AsepriteError>(canvas),
    decreases rows,
{
    if rows > 0 {
        lemma_missed_column(canvas, cel, colors, x, (rows - 1) as nat);
    }
}

/// Drawing columns that lie off the canvas leaves the canvas as it is.
proof fn lemma_missed_columns(canvas: RasterView, cel: CelImage, colors: Colors, columns: nat)
    requires
        cel.misses(canvas.width, canvas.height),
        columns <= cel.width,
    ensures
        canvas.draw_columns(cel, colors, columns) == Ok::<RasterView, AsepriteError>(canvas),
    decreases columns,
{
    if columns > 0 {
        lemma_missed_columns(canvas, cel, colors, (columns - 1) as nat);
        lemma_missed_column(canvas, cel, colors, columns - 1, cel.height as nat);
    }
}

/// A grid that lies off the canvas altogether, on whichever side, leaves
/// the canvas as it is, and none of its pixels is resolved.
pub proof fn lemma_cel_off_canvas_changes_nothing(
    canvas: RasterView,
    cel: CelImage,
    colors: Colors,
)
    requires
        cel.misses(canvas.width, canvas.height),
    ensures
        canvas.draw_cel(cel, colors) == Ok::<RasterView, AsepriteError>(canvas),
{
    lemma_missed_columns(canvas, cel, colors, cel.width as nat);
}

/// Drawing rows of fully transparent pixels leaves the canvas as it is.
proof fn lemma_blank_column(canvas: RasterView, cel: CelImage, colors: Colors, x: int, rows: nat)
    requires
        canvas.well_formed(),
        cel == CelImage::blank(cel.width, cel.height),
        0 <= x < cel.width,
        rows <= cel.height,
    ensures
        canvas.draw_column(cel, colors, x, rows) == Ok::<RasterView, AsepriteError>(canvas),
    decreases rows,
{
    if rows > 0 {
        lemma_blank_column(canvas, cel, colors, x, (rows - 1) as nat);
        let y = rows - 1;
        crate::raster::lemma_pixel_in_bounds(cel.width as int, cel.height as int, x, y);
        assert(y * cel.width == cel.width * y) by (nonlinear_arith);
        assert(cel.pixel(x, y) == blank_pixel());
        if canvas.has(x, y) {
            crate::raster::lemma_pixel_in_bounds(canvas.width as int, canvas.height as int, x, y);
            let below = canvas.pixel(x, y);
            let rgba = blank_pixel().spec_rgba(colors.palette, colors.transparent_palette).unwrap();
            assert(rgba[3] == 0);
            assert(blend_over(below, rgba) == below);
            assert(canvas.with_pixel(x, y, below).data =~= canvas.data);
        }
    }
}

/// Drawing columns of fully transparent pixels leaves the canvas as it is.
proof fn lemma_blank_columns(canvas: RasterView, cel: CelImage, colors: Colors, columns: nat)
    requires
        canvas.well_formed(),
        cel == CelImage::blank(cel.width, cel.height),
        columns <= cel.width,
    ensures
        canvas.draw_columns(cel, colors, columns) == Ok::<RasterView, AsepriteError>(canvas),
    decreases columns,
{
    if columns > 0 {
        lemma_blank_columns(canvas, cel, colors, (columns - 1) as nat);
        lemma_blank_column(canvas, cel, colors, columns - 1, cel.height as nat);
    }
}

/// A layer without a cel at a frame leaves the canvas as it is: the
/// transparent grid that stands for the missing cel changes no color.
pub proof fn lemma_blank_cel_changes_nothing(
    canvas: RasterView,
    width: u16,
    height: u16,
    colors: Colors,
)
    requires
        canvas.well_formed(),
    ensures
        canvas.draw_cel(CelImage::blank(width, height), colors) == Ok::<
            RasterView,
            AsepriteError,
        >(canvas),
{
    lemma_blank_columns(canvas, CelImage::blank(width, height), colors, width as nat);
}

impl AsepriteSliceView {
    /// Whether the slice lies on the canvas of a document.
    pub open spec fn on_canvas(self, doc: AsepriteView) -> bool {
        &&& self.position_x >= 0
        &&& self.position_y >= 0
        &&& self.position_x + self.width <= doc.width
        &&& self.position_y + self.height <= doc.height
    }
}

/// The image of a slice that lies on the canvas has the size of the slice.
/// The image of a nine-patch slice whose center lies in the slice comes
/// with exactly nine parts, labeled in the order in which they are cut
/// out, and each part has the size of its rectangle; the rectangles divide
/// the slice.
pub proof fn lemma_slice_image_sizes(doc: AsepriteView, slice: AsepriteSliceView)
    requires
        slice.on_canvas(doc),
        slice.nine_patch_info matches Some(info) ==> center_fits(slice.width, slice.height, info),
    ensures
        doc.slice_image(slice) matches Ok(cut) ==> {
            &&& cut.image.width == slice.width
            &&& cut.image.height == slice.height
            &&& slice.nine_patch_info is None ==> cut.nine_slices is None
            &&& slice.nine_patch_info matches Some(info) ==> cut.nine_slices matches Some(parts)
                && parts.len() == 9 && forall|i: int|
                0 <= i < 9 ==> (#[trigger] parts[i]).0 == nine_slice_order()[i] && parts[i].1.width
                    == nine_patch_rect(parts[i].0, slice.width, slice.height, info).width
                    && parts[i].1.height == nine_patch_rect(
                    parts[i].0,
                    slice.width,
                    slice.height,
                    info,
                ).height
        },
{
    lemma_composite_size(doc, slice.valid_frame);
    match slice.nine_patch_info {
        Some(info) => {
            lemma_nine_patch_divides_slice(slice.width, slice.height, info);
            match doc.slice_image(slice) {
                Ok(cut) => {
                    let parts = cut.nine_slices.unwrap();
                    assert forall|i: int| 0 <= i < 9 implies (#[trigger] parts[i]).0
                        == nine_slice_order()[i] && parts[i].1.width == nine_patch_rect(
                        parts[i].0,
                        slice.width,
                        slice.height,
                        info,
                    ).width && parts[i].1.height == nine_patch_rect(
                        parts[i].0,
                        slice.width,
                        slice.height,
                        info,
                    ).height by {
                        let rect = nine_patch_rect(
                            nine_slice_order()[i],
                            slice.width,
                            slice.height,
                            info,
                        );
                        assert(rect.inside(slice.width, slice.height));
                    }
                },
                Err(_) => {},
            }
        },
        None => {},
    }
}

} // verus!
