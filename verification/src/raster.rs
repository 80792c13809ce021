//! RGBA rasters: the canvas on which frames are composited, and what is
//! cropped out of it.

use vstd::arithmetic::div_mod::lemma_fundamental_div_mod_converse;
use vstd::prelude::*;

verus! {

/// What a [`RasterImage`] holds: its dimensions and its bytes, four for each
/// pixel (red, green, blue, alpha), row by row from the top.
pub struct RasterView {
    /// Width in pixels
    pub width: u32,
    /// Height in pixels
    pub height: u32,
    /// The channel bytes
    pub data: Seq<u8>,
}

/// The smaller of two numbers.
pub open spec fn min_u32(a: u32, b: u32) -> u32 {
    if a <= b {
        a
    } else {
        b
    }
}

impl RasterView {
    /// There are four bytes for each pixel.
    pub open spec fn well_formed(self) -> bool {
        self.data.len() == 4 * self.width * self.height
    }

    /// Where the bytes of the pixel in column `x` of row `y` begin.
    pub open spec fn offset(self, x: int, y: int) -> int {
        4 * (y * self.width + x)
    }

    /// The four channels of the pixel in column `x` of row `y`.
    pub open spec fn pixel(self, x: int, y: int) -> Seq<u8> {
        self.data.subrange(self.offset(x, y), self.offset(x, y) + 4)
    }

    /// The raster with one pixel replaced.
    pub open spec fn with_pixel(self, x: int, y: int, rgba: Seq<u8>) -> RasterView {
        RasterView {
            width: self.width,
            height: self.height,
            data: Seq::new(
                self.data.len(),
                |k: int|
                    if self.offset(x, y) <= k < self.offset(x, y) + 4 {
                        rgba[k - self.offset(x, y)]
                    } else {
                        self.data[k]
                    },
            ),
        }
    }

    /// The raster of the given dimensions in which every byte is zero: fully
    /// transparent black.
    pub open spec fn blank(width: u32, height: u32) -> RasterView {
        RasterView { width, height, data: Seq::new((4 * width * height) as nat, |k: int| 0u8) }
    }

    /// The part of the raster under a rectangle.
    ///
    /// The rectangle's corner is first moved into the raster, then its width
    /// and height are cut down to what the raster has right of and below the
    /// corner. The pixel in column `i` of row `j` of the result is the pixel
    /// in column `x + i` of row `y + j` of the raster.
    pub open spec fn crop(self, x: u32, y: u32, width: u32, height: u32) -> RasterView {
        let left = min_u32(x, self.width);
        let top = min_u32(y, self.height);
        let rows = min_u32(height, (self.height - top) as u32);
        let columns = min_u32(width, (self.width - left) as u32);
        RasterView {
            width: columns,
            height: rows,
            data: Seq::new(
                (4 * columns * rows) as nat,
                |k: int|
                    self.data[self.offset(left + (k / 4) % (columns as int), top + (k / 4) / (
                    columns as int)) + k % 4],
            ),
        }
    }
}

/// The result of blending a foreground color that is neither fully
/// transparent nor fully opaque over a background color, each given by its
/// four channels.
pub uninterp spec fn blend_mix(background: Seq<u8>, foreground: Seq<u8>) -> Seq<u8>;

/// The color that results from laying a foreground color over a background
/// color.
///
/// A fully transparent foreground leaves the background as it is, and a fully
/// opaque one replaces it.
pub open spec fn blend_over(background: Seq<u8>, foreground: Seq<u8>) -> Seq<u8> {
    if foreground[3] == 0 {
        background
    } else if foreground[3] == 255 {
        foreground
    } else {
        blend_mix(background, foreground)
    }
}

/// Lays one color over another with `image::Pixel::blend` on `image::Rgba<u8>`.
///
/// That function returns the background where the foreground's alpha is 0 and
/// the foreground where it is 255. In between it mixes the two in floating
/// point by the "source over" rule; of that only the name [`blend_mix`] is
/// stated here.
#[verifier::external_body]
fn blend_rgba(background: [u8; 4], foreground: [u8; 4]) -> (out: [u8; 4])
    ensures
        foreground[3] == 0 ==> out@ == background@,
        foreground[3] == 255 ==> out@ == foreground@,
        0 < foreground[3] < 255 ==> out@ == blend_mix(background@, foreground@),
{
    let mut pixel = image::Rgba(background);
    image::Pixel::blend(&mut pixel, &image::Rgba(foreground));
    pixel.0
}

/// The bytes of a pixel lie inside the data of a well-formed raster.
pub proof fn lemma_pixel_in_bounds(width: int, height: int, x: int, y: int)
    requires
        0 <= x < width,
        0 <= y < height,
    ensures
        0 <= y * width + x < width * height,
        0 <= 4 * (y * width + x),
        4 * (y * width + x) + 4 <= 4 * width * height,
{
    assert(0 <= y * width && (y + 1) * width <= height * width) by (nonlinear_arith)
        requires
            0 <= y,
            y + 1 <= height,
            0 < width,
    ;
    assert((y + 1) * width == y * width + width) by (nonlinear_arith);
    assert(height * width == width * height) by (nonlinear_arith);
    assert(4 * width * height == 4 * (width * height)) by (nonlinear_arith);
}

/// The place of a byte in a raster of `columns` columns gives its channel,
/// its column and its row.
proof fn lemma_crop_index(columns: int, i: int, j: int, channel: int)
    requires
        0 <= i < columns,
        0 <= j,
        0 <= channel < 4,
    ensures
        (4 * (columns * j + i) + channel) % 4 == channel,
        (4 * (columns * j + i) + channel) / 4 == columns * j + i,
        (columns * j + i) % columns == i,
        (columns * j + i) / columns == j,
{
    assert(4 * (columns * j + i) + channel == (columns * j + i) * 4 + channel);
    lemma_fundamental_div_mod_converse(
        4 * (columns * j + i) + channel,
        4,
        columns * j + i,
        channel,
    );
    assert(columns * j + i == j * columns + i) by (nonlinear_arith);
    lemma_fundamental_div_mod_converse(columns * j + i, columns, j, i);
}

/// A pixel that is replaced has the color that it was replaced with.
pub proof fn lemma_with_pixel(image: RasterView, x: int, y: int, rgba: Seq<u8>)
    requires
        image.well_formed(),
        0 <= x < image.width,
        0 <= y < image.height,
        rgba.len() == 4,
    ensures
        image.with_pixel(x, y, rgba).well_formed(),
        image.with_pixel(x, y, rgba).pixel(x, y) == rgba,
{
    lemma_pixel_in_bounds(image.width as int, image.height as int, x, y);
    assert(image.with_pixel(x, y, rgba).pixel(x, y) =~= rgba);
}

/// The pixels of a cropped raster are the pixels of the raster under the
/// rectangle: the pixel in column `i` of row `j` of what is cropped out at
/// a corner inside the raster is the pixel in column `x + i` of row `y + j`
/// of the raster.
pub proof fn lemma_crop_pixel(
    image: RasterView,
    x: u32,
    y: u32,
    width: u32,
    height: u32,
    i: int,
    j: int,
)
    requires
        image.well_formed(),
        x <= image.width,
        y <= image.height,
        0 <= i < image.crop(x, y, width, height).width,
        0 <= j < image.crop(x, y, width, height).height,
    ensures
        image.crop(x, y, width, height).well_formed(),
        x + i < image.width,
        y + j < image.height,
        image.crop(x, y, width, height).pixel(i, j) == image.pixel(x + i, y + j),
{
    let part = image.crop(x, y, width, height);
    let columns = part.width as int;
    let rows = part.height as int;
    let n = j * columns + i;
    lemma_pixel_in_bounds(columns, rows, i, j);
    lemma_pixel_in_bounds(image.width as int, image.height as int, x + i, y + j);
    vstd::arithmetic::div_mod::lemma_fundamental_div_mod_converse(n, columns, j, i);
    assert(4 * columns * rows == 4 * (columns * rows)) by (nonlinear_arith);
    assert forall|c: int| 0 <= c < 4 implies part.pixel(i, j)[c] == image.pixel(x + i, y + j)[c] by {
        let k = 4 * n + c;
        vstd::arithmetic::div_mod::lemma_fundamental_div_mod_converse(k, 4, n, c);
        assert(part.pixel(i, j)[c] == part.data[k]);
    }
    assert(part.pixel(i, j) =~= image.pixel(x + i, y + j));
}

/// An image of RGBA pixels with 8 bits for each channel.
#[derive(Debug, PartialEq, Eq)]
pub struct RasterImage {
    width: u32,
    height: u32,
    data: Vec<u8>,
}

impl View for RasterImage {
    type V = RasterView;

    closed spec fn view(&self) -> RasterView {
        RasterView { width: self.width, height: self.height, data: self.data@ }
    }
}

impl Clone for RasterImage {
    fn clone(&self) -> (copy: RasterImage)
        ensures
            copy@ == self@,
    {
        proof {
            use_type_invariant(self);
        }
        let data = self.data.clone();
        assert(data@ =~= self.data@);
        RasterImage { width: self.width, height: self.height, data }
    }
}

impl RasterImage {
    #[verifier::type_invariant]
    spec fn valid(self) -> bool {
        self.data.len() == 4 * self.width * self.height
    }

    /// A fully transparent image of the given dimensions.
    pub fn new(width: u32, height: u32) -> (image: RasterImage)
        requires
            4 * width * height <= usize::MAX,
        ensures
            image@ == RasterView::blank(width, height),
            image@.well_formed(),
    {
        assert(width * height <= 4 * width * height) by (nonlinear_arith)
            requires
                0 <= width,
                0 <= height,
        ;
        assert(4 * width * height == 4 * (width * height)) by (nonlinear_arith);
        let pixels: usize = (width as usize) * (height as usize);
        let data: Vec<u8> = vec![0u8; 4 * pixels];
        assert(data@ =~= RasterView::blank(width, height).data);
        RasterImage { width, height, data }
    }

    /// Width in pixels
    pub fn width(&self) -> (w: u32)
        ensures
            w == self@.width,
            self@.well_formed(),
    {
        proof {
            use_type_invariant(self);
        }
        self.width
    }

    /// Height in pixels
    pub fn height(&self) -> (h: u32)
        ensures
            h == self@.height,
            self@.well_formed(),
    {
        proof {
            use_type_invariant(self);
        }
        self.height
    }

    /// The channel bytes, four for each pixel, row by row from the top.
    pub fn as_raw(&self) -> (data: &Vec<u8>)
        ensures
            data@ == self@.data,
            self@.well_formed(),
    {
        proof {
            use_type_invariant(self);
        }
        &self.data
    }

    /// The channel bytes, four for each pixel, row by row from the top.
    pub fn into_raw(self) -> (data: Vec<u8>)
        ensures
            data@ == self@.data,
            self@.well_formed(),
    {
        proof {
            use_type_invariant(&self);
        }
        self.data
    }

    /// An image over given bytes, if there are four for each pixel.
    pub fn from_raw(width: u32, height: u32, data: Vec<u8>) -> (image: Option<RasterImage>)
        ensures
            match image {
                Some(img) => img@ == (RasterView { width, height, data: data@ })
                    && img@.well_formed(),
                None => data@.len() != 4 * width * height,
            },
    {
        assert(0 <= width * height <= 0xffff_ffff * 0xffff_ffff) by (nonlinear_arith)
            requires
                0 <= width <= 0xffff_ffff,
                0 <= height <= 0xffff_ffff,
        ;
        assert(4 * width * height == 4 * (width * height)) by (nonlinear_arith);
        let pixels: u64 = (width as u64) * (height as u64);
        let wanted: u128 = 4u128 * (pixels as u128);
        if data.len() as u128 == wanted {
            Some(RasterImage { width, height, data })
        } else {
            None
        }
    }

    /// The four channels of the pixel in column `x` of row `y`.
    pub fn get_pixel(&self, x: u32, y: u32) -> (rgba: [u8; 4])
        requires
            x < self@.width,
            y < self@.height,
        ensures
            rgba@ == self@.pixel(x as int, y as int),
    {
        proof {
            use_type_invariant(self);
            lemma_pixel_in_bounds(self.width as int, self.height as int, x as int, y as int);
        }
        let at: usize = 4 * ((y as usize) * (self.width as usize) + (x as usize));
        let rgba = [self.data[at], self.data[at + 1], self.data[at + 2], self.data[at + 3]];
        assert(rgba@ =~= self@.pixel(x as int, y as int));
        rgba
    }

    /// Lays a color over the pixel in column `x` of row `y`.
    pub fn blend_pixel(self, x: u32, y: u32, rgba: [u8; 4]) -> (image: RasterImage)
        requires
            x < self@.width,
            y < self@.height,
        ensures
            image@ == self@.with_pixel(
                x as int,
                y as int,
                blend_over(self@.pixel(x as int, y as int), rgba@),
            ),
            image@.well_formed(),
    {
        proof {
            use_type_invariant(&self);
            lemma_pixel_in_bounds(self.width as int, self.height as int, x as int, y as int);
        }
        let below = self.get_pixel(x, y);
        let mixed = blend_rgba(below, rgba);
        let ghost before = self@;
        let RasterImage { width, height, mut data } = self;
        let at: usize = 4 * ((y as usize) * (width as usize) + (x as usize));
        data.set(at, mixed[0]);
        data.set(at + 1, mixed[1]);
        data.set(at + 2, mixed[2]);
        data.set(at + 3, mixed[3]);
        assert(data@ =~= before.with_pixel(x as int, y as int, mixed@).data);
        RasterImage { width, height, data }
    }

    /// The part of the image under a rectangle, cut down to what the image
    /// has of it.
    pub fn crop(&self, x: u32, y: u32, width: u32, height: u32) -> (part: RasterImage)
        ensures
            part@ == self@.crop(x, y, width, height),
            part@.well_formed(),
    {
        proof {
            use_type_invariant(self);
        }
        let left = if x <= self.width {
            x
        } else {
            self.width
        };
        let top = if y <= self.height {
            y
        } else {
            self.height
        };
        let rows = if height <= self.height - top {
            height
        } else {
            self.height - top
        };
        let columns = if width <= self.width - left {
            width
        } else {
            self.width - left
        };
        let ghost wanted = self@.crop(x, y, width, height);
        let mut data: Vec<u8> = Vec::new();
        let mut j: u32 = 0;
        while j < rows
            invariant
                j <= rows,
                self.data.len() == 4 * self.width * self.height,
                left + columns <= self.width,
                top + rows <= self.height,
                left == min_u32(x, self.width),
                top == min_u32(y, self.height),
                wanted == self@.crop(x, y, width, height),
                wanted.width == columns,
                wanted.height == rows,
                data@.len() == 4 * (columns * j),
                forall|k: int| 0 <= k < data@.len() ==> data@[k] == wanted.data[k],
            decreases rows - j,
        {
            let mut i: u32 = 0;
            while i < columns
                invariant
                    i <= columns,
                    j < rows,
                    self.data.len() == 4 * self.width * self.height,
                    left + columns <= self.width,
                    top + rows <= self.height,
                    left == min_u32(x, self.width),
                    top == min_u32(y, self.height),
                    wanted == self@.crop(x, y, width, height),
                    wanted.width == columns,
                    wanted.height == rows,
                    data@.len() == 4 * (columns * j + i),
                    forall|k: int| 0 <= k < data@.len() ==> data@[k] == wanted.data[k],
                decreases columns - i,
            {
                proof {
                    lemma_pixel_in_bounds(
                        self.width as int,
                        self.height as int,
                        left + i,
                        top + j,
                    );
                    lemma_pixel_in_bounds(columns as int, rows as int, i as int, j as int);
                    assert((top + j) * self.width <= (top + j) * self.width + (left + i));
                    assert(j * columns == columns * j) by (nonlinear_arith);
                }
                let ghost before = data@;
                let row: usize = (top + j) as usize;
                let at: usize = 4 * (row * (self.width as usize) + (left + i) as usize);
                data.push(self.data[at]);
                data.push(self.data[at + 1]);
                data.push(self.data[at + 2]);
                data.push(self.data[at + 3]);
                assert forall|k: int| 0 <= k < data@.len() implies data@[k] == wanted.data[k] by {
                    if k < before.len() {
                        assert(data@[k] == before[k]);
                    } else {
                        let channel = k - before.len();
                        lemma_crop_index(columns as int, i as int, j as int, channel);
                        assert(k == 4 * (columns * j + i) + channel);
                        assert(self@.offset(left + i, top + j) == at);
                        assert(data@[k] == self.data@[at + channel]);
                        assert(0 <= k < 4 * columns * rows) by (nonlinear_arith)
                            requires
                                k == 4 * (columns * j + i) + channel,
                                0 <= channel < 4,
                                0 <= i < columns,
                                0 <= j < rows,
                        ;
                    }
                }
                i += 1;
            }
            assert(columns * j + columns == columns * (j + 1)) by (nonlinear_arith);
            j += 1;
        }
        assert(4 * (columns * rows) == 4 * columns * rows) by (nonlinear_arith);
        assert(data@ =~= wanted.data);
        RasterImage { width: columns, height: rows, data }
    }
}

} // verus!
