//! The rounded-rectangle opacity mask of one tile.
//!
//! A mask is opaque everywhere but in its four corner squares, each `radius`
//! pixels on a side. Inside a corner square a pixel is cut away when it lies
//! farther than `radius` from the square's innermost pixel, the one closest
//! to the middle of the tile.

use vstd::prelude::*;
use crate::raster::{Mask, MaskView, mask_dimensions, mask_filled, mask_put, buffer_fits};

verus! {

/// The value of a mask pixel that keeps the tile's pixel.
pub const OPAQUE: u8 = 255;

/// The value of a mask pixel that hides the tile's pixel.
pub const CUT: u8 = 0;

/// One of the four corners of a tile.
#[derive(Clone, Copy, Debug, PartialEq, Eq)]
pub enum Corner {
    TopLeft,
    TopRight,
    BottomLeft,
    BottomRight,
}

impl Corner {
    /// Whether the corner lies on the left edge of the tile.
    pub open spec fn is_left(self) -> bool {
        self == Corner::TopLeft || self == Corner::BottomLeft
    }

    /// Whether the corner lies on the top edge of the tile.
    pub open spec fn is_top(self) -> bool {
        self == Corner::TopLeft || self == Corner::TopRight
    }

    /// The column at which the corner square begins.
    pub open spec fn left(self, width: int, radius: int) -> int {
        if self.is_left() {
            0
        } else {
            width - radius
        }
    }

    /// The row at which the corner square begins.
    pub open spec fn top(self, height: int, radius: int) -> int {
        if self.is_top() {
            0
        } else {
            height - radius
        }
    }

    /// Whether `(x, y)` lies in the corner square.
    pub open spec fn covers(self, width: int, height: int, radius: int, x: int, y: int) -> bool {
        &&& self.left(width, radius) <= x < self.left(width, radius) + radius
        &&& self.top(height, radius) <= y < self.top(height, radius) + radius
    }

    /// How many columns `x` is away from the innermost column of the corner
    /// square, for a column of that square.
    pub open spec fn dx(self, width: int, radius: int, x: int) -> int {
        if self.is_left() {
            radius - 1 - x
        } else {
            x - (width - radius)
        }
    }

    /// How many rows `y` is away from the innermost row of the corner square,
    /// for a row of that square.
    pub open spec fn dy(self, height: int, radius: int, y: int) -> int {
        if self.is_top() {
            radius - 1 - y
        } else {
            y - (height - radius)
        }
    }

    /// Whether `(x, y)` lies farther than `radius` from the innermost pixel
    /// of the corner square, by the squared distance.
    pub open spec fn beyond_arc(self, width: int, height: int, radius: int, x: int, y: int) -> bool {
        self.dx(width, radius, x) * self.dx(width, radius, x) + self.dy(height, radius, y)
            * self.dy(height, radius, y) > radius * radius
    }

    /// [`Corner::beyond_arc`] for the pixel `i` columns and `j` rows from the
    /// first pixel of the corner square. The tile's size does not matter.
    pub open spec fn beyond_arc_at_offset(self, radius: int, i: int, j: int) -> bool {
        let dx = if self.is_left() {
            radius - 1 - i
        } else {
            i
        };
        let dy = if self.is_top() {
            radius - 1 - j
        } else {
            j
        };
        dx * dx + dy * dy > radius * radius
    }

    /// Whether this corner cuts `(x, y)` away: the pixel lies in the corner
    /// square and beyond the arc.
    pub open spec fn cuts(self, width: int, height: int, radius: int, x: int, y: int) -> bool {
        self.covers(width, height, radius, x, y) && self.beyond_arc(width, height, radius, x, y)
    }
}

/// Whether `radius` is a corner radius for a `width` by `height` tile: not
/// negative, and no larger than the tile is wide or high.
pub open spec fn radius_fits(width: int, height: int, radius: int) -> bool {
    0 <= radius <= width && radius <= height
}

/// Whether any of the four corners cuts `(x, y)` away. Each corner is judged
/// by itself, also where the corner squares overlap.
pub open spec fn is_cut(width: int, height: int, radius: int, x: int, y: int) -> bool {
    ||| Corner::TopLeft.cuts(width, height, radius, x, y)
    ||| Corner::TopRight.cuts(width, height, radius, x, y)
    ||| Corner::BottomLeft.cuts(width, height, radius, x, y)
    ||| Corner::BottomRight.cuts(width, height, radius, x, y)
}

/// The value of the rounded mask of a `width` by `height` tile at `(x, y)`.
pub open spec fn mask_value(width: int, height: int, radius: int, x: int, y: int) -> u8 {
    if is_cut(width, height, radius, x, y) {
        CUT
    } else {
        OPAQUE
    }
}

/// Whether `mask` is the rounded mask of a `width` by `height` tile.
pub open spec fn is_round_mask(mask: MaskView, width: int, height: int, radius: int) -> bool {
    &&& mask.width == width
    &&& mask.height == height
    &&& forall|x: int, y: int|
        mask.contains(x, y) ==> #[trigger] mask.at(x, y) == mask_value(width, height, radius, x, y)
}

impl Corner {
    /// Whether the corner lies on the left edge of the tile.
    pub fn on_left_edge(self) -> (b: bool)
        ensures
            b == self.is_left(),
    {
        match self {
            Corner::TopLeft => true,
            Corner::BottomLeft => true,
            Corner::TopRight => false,
            Corner::BottomRight => false,
        }
    }

    /// Whether the corner lies on the top edge of the tile.
    pub fn on_top_edge(self) -> (b: bool)
        ensures
            b == self.is_top(),
    {
        match self {
            Corner::TopLeft => true,
            Corner::TopRight => true,
            Corner::BottomLeft => false,
            Corner::BottomRight => false,
        }
    }

    /// Decides for a pixel of the corner square, `i` columns and `j` rows
    /// from the square's first pixel, whether it lies beyond the arc.
    pub fn offset_beyond_arc(self, radius: u32, i: u32, j: u32) -> (beyond: bool)
        requires
            i < radius <= i32::MAX,
            j < radius,
        ensures
            beyond == self.beyond_arc_at_offset(radius as int, i as int, j as int),
    {
        let dx: u64 = if self.on_left_edge() {
            (radius - 1 - i) as u64
        } else {
            i as u64
        };
        let dy: u64 = if self.on_top_edge() {
            (radius - 1 - j) as u64
        } else {
            j as u64
        };
        let r: u64 = radius as u64;
        assert(dx * dx <= 0x7fff_ffff * 0x7fff_ffff) by (nonlinear_arith)
            requires
                dx <= 0x7fff_ffff,
        ;
        assert(dy * dy <= 0x7fff_ffff * 0x7fff_ffff) by (nonlinear_arith)
            requires
                dy <= 0x7fff_ffff,
        ;
        assert(r * r <= 0x7fff_ffff * 0x7fff_ffff) by (nonlinear_arith)
            requires
                r <= 0x7fff_ffff,
        ;
        dx * dx + dy * dy > r * r
    }
}

/// Cuts one corner of `mask`: every pixel that the corner cuts away becomes
/// [`CUT`], and every other pixel stays as it was.
pub fn cut_corner(mask: &mut Mask, corner: Corner, radius: u32)
    requires
        radius <= old(mask)@.width,
        radius <= old(mask)@.height,
        radius <= i32::MAX,
    ensures
        final(mask)@.width == old(mask)@.width,
        final(mask)@.height == old(mask)@.height,
        forall|x: int, y: int|
            old(mask)@.contains(x, y) ==> #[trigger] final(mask)@.at(x, y) == (if corner.cuts(
                old(mask)@.width as int,
                old(mask)@.height as int,
                radius as int,
                x,
                y,
            ) {
                CUT
            } else {
                old(mask)@.at(x, y)
            }),
{
    let (width, height) = mask_dimensions(mask);
    let left: u32 = if corner.on_left_edge() {
        0
    } else {
        width - radius
    };
    let top: u32 = if corner.on_top_edge() {
        0
    } else {
        height - radius
    };
    let ghost w = width as int;
    let ghost h = height as int;
    let ghost r = radius as int;
    let mut j: u32 = 0;
    while j < radius
        invariant
            j <= radius <= i32::MAX,
            w == width,
            h == height,
            r == radius,
            left == corner.left(w, r),
            top == corner.top(h, r),
            left + radius <= width,
            top + radius <= height,
            mask@.width == w == old(mask)@.width,
            mask@.height == h == old(mask)@.height,
            forall|x: int, y: int|
                old(mask)@.contains(x, y) ==> #[trigger] mask@.at(x, y) == (if corner.cuts(
                    w,
                    h,
                    r,
                    x,
                    y,
                ) && y < top + j {
                    CUT
                } else {
                    old(mask)@.at(x, y)
                }),
        decreases radius - j,
    {
        let mut i: u32 = 0;
        while i < radius
            invariant
                i <= radius <= i32::MAX,
                j < radius,
                w == width,
                h == height,
                r == radius,
                left == corner.left(w, r),
                top == corner.top(h, r),
                left + radius <= width,
                top + radius <= height,
                mask@.width == w == old(mask)@.width,
                mask@.height == h == old(mask)@.height,
                forall|x: int, y: int|
                    old(mask)@.contains(x, y) ==> #[trigger] mask@.at(x, y) == (if corner.cuts(
                        w,
                        h,
                        r,
                        x,
                        y,
                    ) && (y < top + j || (y == top + j && x < left + i)) {
                        CUT
                    } else {
                        old(mask)@.at(x, y)
                    }),
            decreases radius - i,
        {
            let cut = corner.offset_beyond_arc(radius, i, j);
            assert(cut == corner.cuts(w, h, r, left + i, top + j));
            let ghost before = mask@;
            if cut {
                mask_put(mask, left + i, top + j, CUT);
            }
            assert forall|x: int, y: int| old(mask)@.contains(x, y) implies mask@.at(x, y) == (
            if x == left + i && y == top + j && cut {
                CUT
            } else {
                before.at(x, y)
            }) by {}
            i += 1;
        }
        j += 1;
    }
}

/// Makes the rounded mask of a `width` by `height` tile: [`OPAQUE`]
/// everywhere but at the pixels that one of the four corners cuts away,
/// which are [`CUT`]. With a radius of 0 nothing is cut.
pub fn mk_round_mask(width: u32, height: u32, radius: i32) -> (mask: Mask)
    requires
        radius_fits(width as int, height as int, radius as int),
        buffer_fits(width as int, height as int, 1),
    ensures
        is_round_mask(mask@, width as int, height as int, radius as int),
{
    let mut mask = mask_filled(width, height, OPAQUE);
    let r: u32 = radius as u32;
    cut_corner(&mut mask, Corner::TopLeft, r);
    cut_corner(&mut mask, Corner::TopRight, r);
    cut_corner(&mut mask, Corner::BottomLeft, r);
    cut_corner(&mut mask, Corner::BottomRight, r);
    mask
}

} // verus!
