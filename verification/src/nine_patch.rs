//! The geometry of nine-patch slices: a center rectangle inside a slice and
//! the eight rectangles around it.

use vstd::prelude::*;

use crate::raster::RasterView;
use crate::raw::AsepriteNinePatchInfo;

verus! {

/// The nine slices in a nine-patch image
#[derive(Debug, Hash, PartialEq, Eq, Clone, Copy)]
#[allow(missing_docs)]
pub enum NineSlice {
    TopLeft,
    TopCenter,
    TopRight,
    RightCenter,
    BottomRight,
    BottomCenter,
    BottomLeft,
    LeftCenter,
    Center,
}

/// A rectangle: the column and row of its top left corner, its width and
/// its height.
#[derive(Debug, PartialEq, Eq, Clone, Copy)]
pub struct PatchRect {
    /// Column of the left edge
    pub x: u32,
    /// Row of the top edge
    pub y: u32,
    /// Width in pixels
    pub width: u32,
    /// Height in pixels
    pub height: u32,
}

impl PatchRect {
    /// Whether column `x` of row `y` lies in the rectangle.
    pub open spec fn contains(self, x: int, y: int) -> bool {
        self.x <= x < self.x + self.width && self.y <= y < self.y + self.height
    }

    /// Whether the rectangle lies inside a slice of the given size.
    pub open spec fn inside(self, width: u32, height: u32) -> bool {
        self.x + self.width <= width && self.y + self.height <= height
    }
}

/// The nine slices in the order in which they are cut out.
pub open spec fn nine_slice_order() -> Seq<NineSlice> {
    seq![
        NineSlice::TopLeft,
        NineSlice::TopCenter,
        NineSlice::TopRight,
        NineSlice::RightCenter,
        NineSlice::BottomRight,
        NineSlice::BottomCenter,
        NineSlice::BottomLeft,
        NineSlice::LeftCenter,
        NineSlice::Center,
    ]
}

/// A signed number read as an unsigned one of the same 32 bits.
pub open spec fn as_unsigned(value: i32) -> u32 {
    if value >= 0 {
        value as u32
    } else {
        (value + 0x1_0000_0000) as u32
    }
}

/// The rectangle of one of the nine slices, relative to the slice that they
/// divide.
///
/// The center rectangle is given by its offset in the slice and its size.
/// The other eight reach from it to the edges of the slice. All sums and
/// differences are taken modulo 2^32.
pub open spec fn nine_patch_rect(
    which: NineSlice,
    slice_width: u32,
    slice_height: u32,
    info: AsepriteNinePatchInfo,
) -> PatchRect {
    let patch_x = as_unsigned(info.x_center);
    let patch_y = as_unsigned(info.y_center);
    let right_x = patch_x.wrapping_add(info.width);
    let right_width = slice_width.wrapping_sub(info.width).wrapping_sub(patch_x);
    let bottom_y = patch_y.wrapping_add(info.height);
    let bottom_height = slice_height.wrapping_sub(info.height).wrapping_sub(patch_y);
    match which {
        NineSlice::TopLeft => PatchRect { x: 0, y: 0, width: patch_x, height: patch_y },
        NineSlice::TopCenter => PatchRect { x: patch_x, y: 0, width: info.width, height: patch_y },
        NineSlice::TopRight => PatchRect { x: right_x, y: 0, width: right_width, height: patch_y },
        NineSlice::RightCenter => PatchRect {
            x: right_x,
            y: patch_y,
            width: right_width,
            height: info.height,
        },
        NineSlice::BottomRight => PatchRect {
            x: right_x,
            y: bottom_y,
            width: right_width,
            height: bottom_height,
        },
        NineSlice::BottomCenter => PatchRect {
            x: patch_x,
            y: bottom_y,
            width: info.width,
            height: bottom_height,
        },
        NineSlice::BottomLeft => PatchRect {
            x: 0,
            y: bottom_y,
            width: patch_x,
            height: bottom_height,
        },
        NineSlice::LeftCenter => PatchRect { x: 0, y: patch_y, width: patch_x, height: info.height },
        NineSlice::Center => PatchRect {
            x: patch_x,
            y: patch_y,
            width: info.width,
            height: info.height,
        },
    }
}

/// The center rectangle lies inside a slice of the given size.
pub open spec fn center_fits(
    slice_width: u32,
    slice_height: u32,
    info: AsepriteNinePatchInfo,
) -> bool {
    &&& info.x_center >= 0
    &&& info.y_center >= 0
    &&& info.x_center + info.width <= slice_width
    &&& info.y_center + info.height <= slice_height
}

/// The rectangle of one of the nine slices.
pub fn nine_patch_rect_of(
    which: NineSlice,
    slice_width: u32,
    slice_height: u32,
    info: &AsepriteNinePatchInfo,
) -> (rect: PatchRect)
    ensures
        rect == nine_patch_rect(which, slice_width, slice_height, *info),
{
    let patch_x: u32 = if info.x_center >= 0 {
        info.x_center as u32
    } else {
        (info.x_center as i64 + 0x1_0000_0000i64) as u32
    };
    let patch_y: u32 = if info.y_center >= 0 {
        info.y_center as u32
    } else {
        (info.y_center as i64 + 0x1_0000_0000i64) as u32
    };
    let right_x = patch_x.wrapping_add(info.width);
    let right_width = slice_width.wrapping_sub(info.width).wrapping_sub(patch_x);
    let bottom_y = patch_y.wrapping_add(info.height);
    let bottom_height = slice_height.wrapping_sub(info.height).wrapping_sub(patch_y);
    match which {
        NineSlice::TopLeft => PatchRect { x: 0, y: 0, width: patch_x, height: patch_y },
        NineSlice::TopCenter => PatchRect { x: patch_x, y: 0, width: info.width, height: patch_y },
        NineSlice::TopRight => PatchRect { x: right_x, y: 0, width: right_width, height: patch_y },
        NineSlice::RightCenter => PatchRect {
            x: right_x,
            y: patch_y,
            width: right_width,
            height: info.height,
        },
        NineSlice::BottomRight => PatchRect {
            x: right_x,
            y: bottom_y,
            width: right_width,
            height: bottom_height,
        },
        NineSlice::BottomCenter => PatchRect {
            x: patch_x,
            y: bottom_y,
            width: info.width,
            height: bottom_height,
        },
        NineSlice::BottomLeft => PatchRect {
            x: 0,
            y: bottom_y,
            width: patch_x,
            height: bottom_height,
        },
        NineSlice::LeftCenter => PatchRect { x: 0, y: patch_y, width: patch_x, height: info.height },
        NineSlice::Center => PatchRect {
            x: patch_x,
            y: patch_y,
            width: info.width,
            height: info.height,
        },
    }
}

/// The nine slices in the order in which they are cut out.
pub fn nine_slices() -> (order: [NineSlice; 9])
    ensures
        order@ == nine_slice_order(),
{
    let order = [
        NineSlice::TopLeft,
        NineSlice::TopCenter,
        NineSlice::TopRight,
        NineSlice::RightCenter,
        NineSlice::BottomRight,
        NineSlice::BottomCenter,
        NineSlice::BottomLeft,
        NineSlice::LeftCenter,
        NineSlice::Center,
    ];
    assert(order@ =~= nine_slice_order());
    order
}

/// The one of the nine slices in whose column and row a position lies: the
/// columns and rows are those left of, in and right of the center rectangle,
/// and above, in and below it.
pub open spec fn nine_slice_at(info: AsepriteNinePatchInfo, x: int, y: int) -> NineSlice {
    let patch_x = as_unsigned(info.x_center);
    let patch_y = as_unsigned(info.y_center);
    if y < patch_y {
        if x < patch_x {
            NineSlice::TopLeft
        } else if x < patch_x + info.width {
            NineSlice::TopCenter
        } else {
            NineSlice::TopRight
        }
    } else if y < patch_y + info.height {
        if x < patch_x {
            NineSlice::LeftCenter
        } else if x < patch_x + info.width {
            NineSlice::Center
        } else {
            NineSlice::RightCenter
        }
    } else {
        if x < patch_x {
            NineSlice::BottomLeft
        } else if x < patch_x + info.width {
            NineSlice::BottomCenter
        } else {
            NineSlice::BottomRight
        }
    }
}

/// Where the center rectangle lies inside the slice, the nine rectangles
/// divide the slice.
///
/// Each of them lies inside the slice; each position of the slice lies in
/// exactly one of them; the widths of a row of three add up to the slice's
/// width and the heights of a column of three to its height.
pub proof fn lemma_nine_patch_divides_slice(
    slice_width: u32,
    slice_height: u32,
    info: AsepriteNinePatchInfo,
)
    requires
        center_fits(slice_width, slice_height, info),
    ensures
        forall|which: NineSlice| #[trigger]
            nine_patch_rect(which, slice_width, slice_height, info).inside(
                slice_width,
                slice_height,
            ),
        forall|x: int, y: int|
            0 <= x < slice_width && 0 <= y < slice_height ==> nine_patch_rect(
                #[trigger] nine_slice_at(info, x, y),
                slice_width,
                slice_height,
                info,
            ).contains(x, y),
        forall|x: int, y: int, a: NineSlice, b: NineSlice|
            #![trigger nine_patch_rect(a, slice_width, slice_height, info).contains(x, y),
                nine_patch_rect(b, slice_width, slice_height, info).contains(x, y)]
            nine_patch_rect(a, slice_width, slice_height, info).contains(x, y) && nine_patch_rect(
                b,
                slice_width,
                slice_height,
                info,
            ).contains(x, y) ==> a == b,
        nine_patch_rect(NineSlice::TopLeft, slice_width, slice_height, info).width
            + nine_patch_rect(NineSlice::TopCenter, slice_width, slice_height, info).width
            + nine_patch_rect(NineSlice::TopRight, slice_width, slice_height, info).width
            == slice_width,
        nine_patch_rect(NineSlice::TopLeft, slice_width, slice_height, info).height
            + nine_patch_rect(NineSlice::LeftCenter, slice_width, slice_height, info).height
            + nine_patch_rect(NineSlice::BottomLeft, slice_width, slice_height, info).height
            == slice_height,
{
}

impl PatchRect {
    /// The number of positions in the rectangle.
    pub open spec fn area(self) -> int {
        self.width * self.height
    }
}

/// Where the center rectangle lies inside the slice, the nine rectangles
/// have as many positions together as the slice has.
pub proof fn lemma_nine_patch_area(slice_width: u32, slice_height: u32, info: AsepriteNinePatchInfo)
    requires
        center_fits(slice_width, slice_height, info),
    ensures
        nine_patch_rect(NineSlice::TopLeft, slice_width, slice_height, info).area()
            + nine_patch_rect(NineSlice::TopCenter, slice_width, slice_height, info).area()
            + nine_patch_rect(NineSlice::TopRight, slice_width, slice_height, info).area()
            + nine_patch_rect(NineSlice::RightCenter, slice_width, slice_height, info).area()
            + nine_patch_rect(NineSlice::BottomRight, slice_width, slice_height, info).area()
            + nine_patch_rect(NineSlice::BottomCenter, slice_width, slice_height, info).area()
            + nine_patch_rect(NineSlice::BottomLeft, slice_width, slice_height, info).area()
            + nine_patch_rect(NineSlice::LeftCenter, slice_width, slice_height, info).area()
            + nine_patch_rect(NineSlice::Center, slice_width, slice_height, info).area()
            == slice_width * slice_height,
{
    let left = as_unsigned(info.x_center) as int;
    let top = as_unsigned(info.y_center) as int;
    let middle = info.width as int;
    let center = info.height as int;
    let right = slice_width - info.width - left;
    let bottom = slice_height - info.height - top;
    assert(left * top + middle * top + right * top + right * center + right * bottom + middle
        * bottom + left * bottom + left * center + middle * center == (left + middle + right) * (
    top + center + bottom)) by (nonlinear_arith);
}

impl RasterView {
    /// The part of the raster under a rectangle, cut down to what the raster
    /// has of it.
    pub open spec fn crop_rect(self, rect: PatchRect) -> RasterView {
        self.crop(rect.x, rect.y, rect.width, rect.height)
    }
}

/// A rectangle that lies inside a raster is cropped out whole.
pub proof fn lemma_crop_inside(image: RasterView, rect: PatchRect)
    requires
        rect.inside(image.width, image.height),
    ensures
        image.crop_rect(rect).width == rect.width,
        image.crop_rect(rect).height == rect.height,
{
}

} // verus!
