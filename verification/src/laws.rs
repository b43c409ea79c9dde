//! What holds of the masks, of the masked tiles and of the rounded sheets,
//! whatever the images are.

use vstd::prelude::*;
use vstd::arithmetic::div_mod::lemma_fundamental_div_mod_converse;
use crate::compose::{is_masked, is_rounded_tile, masked_alpha, masked_pixel};
use crate::mask::{Corner, CUT, OPAQUE, is_round_mask, mask_value, radius_fits};
use crate::raster::{BitmapView, MaskView};
use crate::sheet::{is_rounded_sheet, process_failure, rounded_sheet_pixel};

verus! {

/// A mask value is [`CUT`] just where one of the four corners cuts the pixel
/// away, that is where the pixel lies in that corner's square and beyond its
/// arc; everywhere else it is [`OPAQUE`]. No other value occurs.
pub proof fn mask_cuts_exactly_beyond_an_arc(width: int, height: int, radius: int, x: int, y: int)
    ensures
        mask_value(width, height, radius, x, y) == CUT <==> exists|c: Corner|
            c.covers(width, height, radius, x, y) && #[trigger] c.beyond_arc(
                width,
                height,
                radius,
                x,
                y,
            ),
        mask_value(width, height, radius, x, y) == OPAQUE <==> forall|c: Corner|
            c.covers(width, height, radius, x, y) ==> !#[trigger] c.beyond_arc(
                width,
                height,
                radius,
                x,
                y,
            ),
        mask_value(width, height, radius, x, y) == CUT || mask_value(width, height, radius, x, y)
            == OPAQUE,
{
    if mask_value(width, height, radius, x, y) == CUT {
        let c = if Corner::TopLeft.cuts(width, height, radius, x, y) {
            Corner::TopLeft
        } else if Corner::TopRight.cuts(width, height, radius, x, y) {
            Corner::TopRight
        } else if Corner::BottomLeft.cuts(width, height, radius, x, y) {
            Corner::BottomLeft
        } else {
            Corner::BottomRight
        };
        assert(c.covers(width, height, radius, x, y) && c.beyond_arc(width, height, radius, x, y));
    } else {
        assert forall|c: Corner| c.covers(width, height, radius, x, y) implies !#[trigger] c.beyond_arc(
            width,
            height,
            radius,
            x,
            y,
        ) by {
            assert(!c.cuts(width, height, radius, x, y)) by {
                match c {
                    Corner::TopLeft => {},
                    Corner::TopRight => {},
                    Corner::BottomLeft => {},
                    Corner::BottomRight => {},
                }
            }
        }
    }
}

/// With a radius of zero the rounded mask is opaque at every pixel: rounding
/// is switched off.
pub proof fn zero_radius_mask_is_opaque(mask: MaskView, width: int, height: int)
    requires
        is_round_mask(mask, width, height, 0),
    ensures
        mask.width == width,
        mask.height == height,
        forall|x: int, y: int| mask.contains(x, y) ==> #[trigger] mask.at(x, y) == OPAQUE,
{
}

/// With the largest radius, that of the shorter side of the tile, each corner
/// square spans that side from edge to edge, and still a pixel is cut just
/// where it lies in a corner square beyond that corner's arc: no pixel
/// within the arc of every corner square that holds it is cut, and every
/// pixel beyond the arc of one is.
pub proof fn full_radius_mask_cuts_beyond_arcs(
    mask: MaskView,
    width: int,
    height: int,
    radius: int,
    x: int,
    y: int,
)
    requires
        0 <= width,
        0 <= height,
        radius == if width <= height {
            width
        } else {
            height
        },
        is_round_mask(mask, width, height, radius),
        mask.contains(x, y),
    ensures
        width <= height ==> forall|c: Corner|
            #[trigger] c.covers(width, height, radius, x, y) <==> c.top(height, radius) <= y
                < c.top(height, radius) + radius,
        height <= width ==> forall|c: Corner|
            #[trigger] c.covers(width, height, radius, x, y) <==> c.left(width, radius) <= x
                < c.left(width, radius) + radius,
        mask.at(x, y) == CUT <==> exists|c: Corner|
            c.covers(width, height, radius, x, y) && #[trigger] c.beyond_arc(
                width,
                height,
                radius,
                x,
                y,
            ),
        mask.at(x, y) == OPAQUE <==> forall|c: Corner|
            c.covers(width, height, radius, x, y) ==> !#[trigger] c.beyond_arc(
                width,
                height,
                radius,
                x,
                y,
            ),
{
    mask_cuts_exactly_beyond_an_arc(width, height, radius, x, y);
}

/// A mask value of 255 keeps an alpha as it is, and a mask value of 0 makes
/// it 0.
pub proof fn masked_alpha_at_the_ends(alpha: u8)
    ensures
        masked_alpha(alpha, OPAQUE) == alpha,
        masked_alpha(alpha, CUT) == 0,
{
}

/// Under a mask that is 255 at all its pixels a tile stays as it is: every
/// pixel of the result is that of the tile, alpha included.
pub proof fn opaque_mask_keeps_tile(out: BitmapView, tile: BitmapView, mask: MaskView)
    requires
        is_masked(out, tile, mask),
        forall|x: int, y: int| mask.contains(x, y) ==> #[trigger] mask.at(x, y) == OPAQUE,
    ensures
        out.width == tile.width,
        out.height == tile.height,
        forall|x: int, y: int| tile.contains(x, y) ==> #[trigger] out.at(x, y) == tile.at(x, y),
{
    assert forall|x: int, y: int| tile.contains(x, y) implies #[trigger] out.at(x, y) == tile.at(
        x,
        y,
    ) by {
        masked_alpha_at_the_ends(tile.at(x, y).3);
    }
}

/// Under a mask of the tile's size that holds no value but 0 and 255, the
/// alpha of a pixel becomes 0 where the mask is 0 and stays bit for bit
/// where it is not; so it is 0 in the result just where the mask is 0 or the
/// alpha was 0 before. The colour channels stay everywhere.
pub proof fn binary_mask_zeroes_or_keeps_alpha(out: BitmapView, tile: BitmapView, mask: MaskView)
    requires
        is_masked(out, tile, mask),
        mask.width == tile.width,
        mask.height == tile.height,
        forall|x: int, y: int|
            mask.contains(x, y) ==> #[trigger] mask.at(x, y) == CUT || mask.at(x, y) == OPAQUE,
    ensures
        forall|x: int, y: int|
            tile.contains(x, y) ==> {
                &&& (#[trigger] out.at(x, y)).0 == tile.at(x, y).0
                &&& out.at(x, y).1 == tile.at(x, y).1
                &&& out.at(x, y).2 == tile.at(x, y).2
                &&& mask.at(x, y) == CUT ==> out.at(x, y).3 == 0
                &&& mask.at(x, y) != CUT ==> out.at(x, y).3 == tile.at(x, y).3
                &&& out.at(x, y).3 == 0 <==> mask.at(x, y) == CUT || tile.at(x, y).3 == 0
            },
{
    assert forall|x: int, y: int| tile.contains(x, y) implies {
        &&& (#[trigger] out.at(x, y)).0 == tile.at(x, y).0
        &&& out.at(x, y).1 == tile.at(x, y).1
        &&& out.at(x, y).2 == tile.at(x, y).2
        &&& mask.at(x, y) == CUT ==> out.at(x, y).3 == 0
        &&& mask.at(x, y) != CUT ==> out.at(x, y).3 == tile.at(x, y).3
        &&& out.at(x, y).3 == 0 <==> mask.at(x, y) == CUT || tile.at(x, y).3 == 0
    } by {
        assert(mask.contains(x, y));
        masked_alpha_at_the_ends(tile.at(x, y).3);
    }
}

/// Rounding a tile changes no colour channel, and no alpha but at the pixels
/// that a corner cuts away, where the alpha becomes 0.
pub proof fn rounding_changes_alpha_only(out: BitmapView, tile: BitmapView, radius: int)
    requires
        is_rounded_tile(out, tile, radius),
    ensures
        forall|x: int, y: int|
            tile.contains(x, y) ==> {
                &&& (#[trigger] out.at(x, y)).0 == tile.at(x, y).0
                &&& out.at(x, y).1 == tile.at(x, y).1
                &&& out.at(x, y).2 == tile.at(x, y).2
                &&& out.at(x, y).3 == (if mask_value(
                    tile.width as int,
                    tile.height as int,
                    radius,
                    x,
                    y,
                ) == CUT {
                    0
                } else {
                    tile.at(x, y).3
                })
            },
{
    assert forall|x: int, y: int| tile.contains(x, y) implies {
        &&& (#[trigger] out.at(x, y)).0 == tile.at(x, y).0
        &&& out.at(x, y).1 == tile.at(x, y).1
        &&& out.at(x, y).2 == tile.at(x, y).2
        &&& out.at(x, y).3 == (if mask_value(tile.width as int, tile.height as int, radius, x, y)
            == CUT {
            0
        } else {
            tile.at(x, y).3
        })
    } by {
        masked_alpha_at_the_ends(tile.at(x, y).3);
    }
}

/// Whether `tile` is the tile of `sheet` in column `column` and row `row` of
/// the grid of `tile_width` by `tile_height` tiles.
pub open spec fn is_tile_of(
    tile: BitmapView,
    sheet: BitmapView,
    tile_width: int,
    tile_height: int,
    column: int,
    row: int,
) -> bool {
    &&& tile.width == tile_width
    &&& tile.height == tile_height
    &&& forall|i: int, j: int|
        tile.contains(i, j) ==> #[trigger] tile.at(i, j) == sheet.at(
            column * tile_width + i,
            row * tile_height + j,
        )
}

/// A sheet that is exactly `columns` by `rows` tiles large keeps its size
/// when its tiles are rounded.
pub proof fn exact_sheet_keeps_its_size(
    out: BitmapView,
    sheet: BitmapView,
    tile_width: int,
    tile_height: int,
    radius: int,
    columns: int,
    rows: int,
)
    requires
        tile_width > 0,
        tile_height > 0,
        sheet.width == tile_width * columns,
        sheet.height == tile_height * rows,
        is_rounded_sheet(out, sheet, tile_width, tile_height, radius),
    ensures
        out.width == sheet.width,
        out.height == sheet.height,
{
    assert(columns * tile_width == tile_width * columns) by (nonlinear_arith);
    assert(rows * tile_height == tile_height * rows) by (nonlinear_arith);
    lemma_fundamental_div_mod_converse(sheet.width as int, tile_width, columns, 0);
    lemma_fundamental_div_mod_converse(sheet.height as int, tile_height, rows, 0);
}

/// Each tile of a rounded sheet is rounded by itself: the pixels of the
/// sheet at the place of a tile are those of that tile, cut out and rounded
/// alone. No other tile bears on them.
pub proof fn each_tile_is_rounded_alone(
    out: BitmapView,
    sheet: BitmapView,
    tile: BitmapView,
    rounded: BitmapView,
    tile_width: int,
    tile_height: int,
    radius: int,
    column: int,
    row: int,
)
    requires
        tile_width > 0,
        tile_height > 0,
        0 <= column,
        0 <= row,
        (column + 1) * tile_width <= out.width,
        (row + 1) * tile_height <= out.height,
        is_rounded_sheet(out, sheet, tile_width, tile_height, radius),
        is_tile_of(tile, sheet, tile_width, tile_height, column, row),
        is_rounded_tile(rounded, tile, radius),
    ensures
        forall|i: int, j: int|
            tile.contains(i, j) ==> #[trigger] out.at(
                column * tile_width + i,
                row * tile_height + j,
            ) == rounded.at(i, j),
{
    assert forall|i: int, j: int| tile.contains(i, j) implies #[trigger] out.at(
        column * tile_width + i,
        row * tile_height + j,
    ) == rounded.at(i, j) by {
        let x = column * tile_width + i;
        let y = row * tile_height + j;
        lemma_fundamental_div_mod_converse(x, tile_width, column, i);
        lemma_fundamental_div_mod_converse(y, tile_height, row, j);
        assert(0 <= column * tile_width && (column + 1) * tile_width == column * tile_width
            + tile_width) by (nonlinear_arith)
            requires
                0 <= column,
                tile_width > 0,
        ;
        assert(0 <= row * tile_height && (row + 1) * tile_height == row * tile_height
            + tile_height) by (nonlinear_arith)
            requires
                0 <= row,
                tile_height > 0,
        ;
        assert(out.contains(x, y));
        assert(tile.at(i, j) == sheet.at(x, y));
        assert(rounded.at(i, j) == masked_pixel(
            tile.at(i, j),
            mask_value(tile_width, tile_height, radius, i, j),
        ));
        assert(out.at(x, y) == rounded_sheet_pixel(sheet, tile_width, tile_height, radius, x, y));
    }
}

/// Rounding the tiles of a sheet changes no colour channel, and no alpha but
/// at the pixels that a corner of their tile cuts away, where the alpha
/// becomes 0 and the colour stays all the same.
pub proof fn rounding_a_sheet_changes_alpha_only(
    out: BitmapView,
    sheet: BitmapView,
    tile_width: int,
    tile_height: int,
    radius: int,
)
    requires
        is_rounded_sheet(out, sheet, tile_width, tile_height, radius),
    ensures
        forall|x: int, y: int|
            out.contains(x, y) ==> {
                &&& (#[trigger] out.at(x, y)).0 == sheet.at(x, y).0
                &&& out.at(x, y).1 == sheet.at(x, y).1
                &&& out.at(x, y).2 == sheet.at(x, y).2
                &&& out.at(x, y).3 == (if mask_value(
                    tile_width,
                    tile_height,
                    radius,
                    x % tile_width,
                    y % tile_height,
                ) == CUT {
                    0
                } else {
                    sheet.at(x, y).3
                })
            },
{
    assert forall|x: int, y: int| out.contains(x, y) implies {
        &&& (#[trigger] out.at(x, y)).0 == sheet.at(x, y).0
        &&& out.at(x, y).1 == sheet.at(x, y).1
        &&& out.at(x, y).2 == sheet.at(x, y).2
        &&& out.at(x, y).3 == (if mask_value(
            tile_width,
            tile_height,
            radius,
            x % tile_width,
            y % tile_height,
        ) == CUT {
            0
        } else {
            sheet.at(x, y).3
        })
    } by {
        masked_alpha_at_the_ends(sheet.at(x, y).3);
        assert(out.at(x, y) == rounded_sheet_pixel(sheet, tile_width, tile_height, radius, x, y));
    }
}

/// A sheet that is exactly `columns` by `rows` tiles large, rounded with a
/// tile size that is not zero and a radius that fits the tile, is never
/// refused; the result has the size of the sheet, and each of its tiles is
/// the tile of the sheet at that place rounded alone.
pub proof fn exact_sheet_is_rounded_tile_by_tile(
    out: BitmapView,
    sheet: BitmapView,
    tile: BitmapView,
    rounded: BitmapView,
    tile_width: int,
    tile_height: int,
    radius: int,
    columns: int,
    rows: int,
    column: int,
    row: int,
)
    requires
        tile_width > 0,
        tile_height > 0,
        radius_fits(tile_width, tile_height, radius),
        sheet.width == tile_width * columns,
        sheet.height == tile_height * rows,
        0 <= column < columns,
        0 <= row < rows,
        is_rounded_sheet(out, sheet, tile_width, tile_height, radius),
        is_tile_of(tile, sheet, tile_width, tile_height, column, row),
        is_rounded_tile(rounded, tile, radius),
    ensures
        process_failure(tile_width, tile_height, radius) is None,
        out.width == sheet.width,
        out.height == sheet.height,
        forall|i: int, j: int|
            tile.contains(i, j) ==> #[trigger] out.at(
                column * tile_width + i,
                row * tile_height + j,
            ) == rounded.at(i, j),
{
    exact_sheet_keeps_its_size(out, sheet, tile_width, tile_height, radius, columns, rows);
    assert((column + 1) * tile_width <= tile_width * columns) by (nonlinear_arith)
        requires
            column < columns,
            tile_width > 0,
    ;
    assert((row + 1) * tile_height <= tile_height * rows) by (nonlinear_arith)
        requires
            row < rows,
            tile_height > 0,
    ;
    each_tile_is_rounded_alone(
        out,
        sheet,
        tile,
        rounded,
        tile_width,
        tile_height,
        radius,
        column,
        row,
    );
}

} // verus!
