//! Whole sheets: rounding every tile of a sheet, and making a blank sheet.
//!
//! A sheet is a grid of equally sized tiles. As many whole tiles as fit are
//! taken from the left and from the top; a strip that is left over at the
//! right or at the bottom is dropped.

use vstd::prelude::*;
use vstd::arithmetic::div_mod::{lemma_fundamental_div_mod, lemma_fundamental_div_mod_converse};
use crate::compose::{apply_mask, masked_pixel};
use crate::error::SheetError;
use crate::mask::{is_round_mask, mask_value, mk_round_mask, radius_fits};
use crate::raster::{
    Bitmap, BitmapView, Color, bitmap_crop, bitmap_dimensions, bitmap_new, bitmap_replace,
    buffer_fits, fits_in_buffer, transparent,
};

verus! {

/// How many whole tiles of size `tile` fit side by side into `sheet`.
pub open spec fn tiles_along(sheet: int, tile: int) -> int {
    sheet / tile
}

/// The pixel at `(x, y)` of the sheet that [`process_image`] makes of
/// `sheet`: the pixel of `sheet` under the rounded mask, taken at the place
/// of `(x, y)` within its tile.
pub open spec fn rounded_sheet_pixel(
    sheet: BitmapView,
    tile_width: int,
    tile_height: int,
    radius: int,
    x: int,
    y: int,
) -> Color {
    masked_pixel(
        sheet.at(x, y),
        mask_value(tile_width, tile_height, radius, x % tile_width, y % tile_height),
    )
}

/// Whether `out` is `sheet` with the corners of each tile rounded: it is as
/// large as the whole tiles of `sheet` together, and each of its pixels is
/// the [`rounded_sheet_pixel`] of its place.
pub open spec fn is_rounded_sheet(
    out: BitmapView,
    sheet: BitmapView,
    tile_width: int,
    tile_height: int,
    radius: int,
) -> bool {
    &&& out.width == tiles_along(sheet.width as int, tile_width) * tile_width
    &&& out.height == tiles_along(sheet.height as int, tile_height) * tile_height
    &&& forall|x: int, y: int|
        out.contains(x, y) ==> #[trigger] out.at(x, y) == rounded_sheet_pixel(
            sheet,
            tile_width,
            tile_height,
            radius,
            x,
            y,
        )
}

/// Why [`process_image`] refuses its input, if it does: first for a tile
/// size of zero, then for the radius. The size of the sheet does not matter.
pub open spec fn process_failure(tile_width: int, tile_height: int, radius: int) -> Option<
    SheetError,
> {
    if tile_width == 0 || tile_height == 0 {
        Some(SheetError::ZeroTileSize)
    } else if !radius_fits(tile_width, tile_height, radius) {
        Some(SheetError::RadiusOutOfRange)
    } else {
        None
    }
}

/// Whether `img` is a fully transparent image of the given size, over a
/// buffer of just the bytes that it needs, all of them zero.
pub open spec fn is_blank(img: BitmapView, width: int, height: int) -> bool {
    &&& img.width == width
    &&& img.height == height
    &&& forall|x: int, y: int| img.contains(x, y) ==> #[trigger] img.at(x, y) == transparent()
    &&& img.bytes.len() == 4 * width * height
    &&& forall|i: int| 0 <= i < img.bytes.len() ==> #[trigger] img.bytes[i] == 0u8
}

/// Whether a blank sheet of `columns` by `rows` tiles can be made: its width
/// and its height fit in 32 bits, and its pixels fit in one buffer.
pub open spec fn sheet_fits(tile_width: int, tile_height: int, columns: int, rows: int) -> bool {
    &&& tile_width * columns <= u32::MAX
    &&& tile_height * rows <= u32::MAX
    &&& buffer_fits(tile_width * columns, tile_height * rows, 4)
}

/// The largest multiple of `tile` that is no larger than `sheet`, with the
/// number of tiles in it.
fn whole_tiles(sheet: u32, tile: u32) -> (res: (u32, u32))
    requires
        tile > 0,
    ensures
        res.0 == tiles_along(sheet as int, tile as int),
        res.1 == res.0 * tile,
        res.1 <= sheet,
{
    let count: u32 = sheet / tile;
    proof {
        lemma_fundamental_div_mod(sheet as int, tile as int);
        assert(count * tile == tile * count) by (nonlinear_arith);
    }
    (count, count * tile)
}

/// Rounds the corners of every tile of `sheet`.
///
/// The tiles are taken row by row. Each is cut out of `sheet`, put under the
/// rounded mask of its size, and copied into a sheet that starts out fully
/// transparent, at the place where it was cut out. The result lies over a
/// buffer of just the bytes that it needs.
pub fn process_image(sheet: &Bitmap, tile_width: u32, tile_height: u32, corner_radius: i32) -> (res:
    Result<Bitmap, SheetError>)
    ensures
        match res {
            Ok(out) => process_failure(
                tile_width as int,
                tile_height as int,
                corner_radius as int,
            ) is None && is_rounded_sheet(
                out@,
                sheet@,
                tile_width as int,
                tile_height as int,
                corner_radius as int,
            ) && out@.bytes.len() == 4 * out@.width * out@.height,
            Err(e) => process_failure(
                tile_width as int,
                tile_height as int,
                corner_radius as int,
            ) == Some(e),
        },
{
    if tile_width == 0 || tile_height == 0 {
        return Err(SheetError::ZeroTileSize);
    }
    if corner_radius < 0 || corner_radius as u32 > tile_width || corner_radius as u32
        > tile_height {
        return Err(SheetError::RadiusOutOfRange);
    }
    let (sheet_width, sheet_height) = bitmap_dimensions(sheet);
    let (columns, out_width) = whole_tiles(sheet_width, tile_width);
    let (rows, out_height) = whole_tiles(sheet_height, tile_height);
    assert(4 * out_width * out_height <= 4 * sheet_width * sheet_height) by (nonlinear_arith)
        requires
            out_width <= sheet_width,
            out_height <= sheet_height,
    ;
    let mut out = bitmap_new(out_width, out_height);
    if columns == 0 || rows == 0 {
        assert(out_width == 0 || out_height == 0) by (nonlinear_arith)
            requires
                out_width == columns * tile_width,
                out_height == rows * tile_height,
                columns == 0 || rows == 0,
        ;
        return Ok(out);
    }
    let ghost tw = tile_width as int;
    let ghost th = tile_height as int;
    let ghost r = corner_radius as int;
    assert(tile_width * tile_height <= 4 * out_width * out_height) by (nonlinear_arith)
        requires
            out_width == columns * tile_width,
            out_height == rows * tile_height,
            columns >= 1,
            rows >= 1,
    ;
    let mask = mk_round_mask(tile_width, tile_height, corner_radius);
    let mut row: u32 = 0;
    let mut top: u32 = 0;
    while row < rows
        invariant
            row <= rows,
            tw == tile_width,
            th == tile_height,
            r == corner_radius,
            tw > 0,
            th > 0,
            top == row * th,
            out_width == columns * tw,
            out_height == rows * th,
            out_width <= sheet@.width,
            out_height <= sheet@.height,
            out@.width == out_width,
            out@.height == out_height,
            out@.bytes.len() == 4 * out_width * out_height,
            is_round_mask(mask@, tw, th, r),
            forall|x: int, y: int|
                out@.contains(x, y) ==> #[trigger] out@.at(x, y) == (if y < top {
                    rounded_sheet_pixel(sheet@, tw, th, r, x, y)
                } else {
                    transparent()
                }),
        decreases rows - row,
    {
        assert(top + th <= out_height) by (nonlinear_arith)
            requires
                top == row * th,
                out_height == rows * th,
                row < rows,
                th > 0,
        ;
        let mut col: u32 = 0;
        let mut left: u32 = 0;
        while col < columns
            invariant
                col <= columns,
                row < rows,
                tw == tile_width,
                th == tile_height,
                r == corner_radius,
                tw > 0,
                th > 0,
                top == row * th,
                left == col * tw,
                top + th <= out_height,
                out_width == columns * tw,
                out_height == rows * th,
                out_width <= sheet@.width,
                out_height <= sheet@.height,
                out@.width == out_width,
                out@.height == out_height,
                out@.bytes.len() == 4 * out_width * out_height,
                is_round_mask(mask@, tw, th, r),
                forall|x: int, y: int|
                    out@.contains(x, y) ==> #[trigger] out@.at(x, y) == (if y < top || (y < top
                        + th && x < left) {
                        rounded_sheet_pixel(sheet@, tw, th, r, x, y)
                    } else {
                        transparent()
                    }),
            decreases columns - col,
        {
            assert(left + tw <= out_width) by (nonlinear_arith)
                requires
                    left == col * tw,
                    out_width == columns * tw,
                    col < columns,
                    tw > 0,
            ;
            let tile = bitmap_crop(sheet, left, top, tile_width, tile_height);
            let rounded = apply_mask(&tile, &mask);
            let ghost before = out@;
            bitmap_replace(&mut out, &rounded, left, top);
            assert forall|x: int, y: int| out@.contains(x, y) implies out@.at(x, y) == (if left
                <= x < left + tw && top <= y < top + th {
                rounded_sheet_pixel(sheet@, tw, th, r, x, y)
            } else {
                before.at(x, y)
            }) by {
                if left <= x < left + tw && top <= y < top + th {
                    let i = x - left;
                    let j = y - top;
                    lemma_fundamental_div_mod_converse(x, tw, col as int, i);
                    lemma_fundamental_div_mod_converse(y, th, row as int, j);
                    assert(before.at(x, y) == transparent());
                    assert(tile@.at(i, j) == sheet@.at(x, y));
                    assert(mask@.at(i, j) == mask_value(tw, th, r, i, j));
                    assert(rounded@.at(i, j) == masked_pixel(tile@.at(i, j), mask@.at(i, j)));
                }
            }
            assert((col + 1) * tw == left + tw) by (nonlinear_arith)
                requires
                    left == col * tw,
            ;
            col += 1;
            left += tile_width;
        }
        assert((row + 1) * th == top + th) by (nonlinear_arith)
            requires
                top == row * th,
        ;
        row += 1;
        top += tile_height;
    }
    Ok(out)
}

/// Makes a blank sheet for `columns` by `rows` tiles: a fully transparent
/// image, `tile_width * columns` wide and `tile_height * rows` high.
pub fn new_sheet(tile_width: u32, tile_height: u32, columns: u32, rows: u32) -> (res: Result<
    Bitmap,
    SheetError,
>)
    ensures
        match res {
            Ok(img) => sheet_fits(
                tile_width as int,
                tile_height as int,
                columns as int,
                rows as int,
            ) && is_blank(img@, tile_width * columns, tile_height * rows),
            Err(e) => e == SheetError::TooLarge && !sheet_fits(
                tile_width as int,
                tile_height as int,
                columns as int,
                rows as int,
            ),
        },
{
    let total_width = match tile_width.checked_mul(columns) {
        Some(w) => w,
        None => { return Err(SheetError::TooLarge); },
    };
    let total_height = match tile_height.checked_mul(rows) {
        Some(h) => h,
        None => { return Err(SheetError::TooLarge); },
    };
    if !fits_in_buffer(total_width, total_height, 4) {
        return Err(SheetError::TooLarge);
    }
    Ok(bitmap_new(total_width, total_height))
}

} // verus!
