//! Applying an opacity mask to a tile.
//!
//! The mask scales the alpha channel of each pixel it covers and leaves the
//! colour channels alone.

use vstd::prelude::*;
use crate::error::SheetError;
use crate::mask::{mask_value, mk_round_mask, radius_fits};
use crate::raster::{
    Bitmap, BitmapView, Color, Mask, MaskView, bitmap_clone, bitmap_dimensions, bitmap_get,
    bitmap_put, mask_dimensions, mask_get,
};

verus! {

/// The alpha that is left of `alpha` under the mask value `mask`: the
/// product of the two over 255, rounded down.
pub open spec fn masked_alpha(alpha: u8, mask: u8) -> u8 {
    ((alpha as int * mask as int) / 255) as u8
}

/// The pixel `pixel` under the mask value `mask`: the same colour, with the
/// alpha scaled.
pub open spec fn masked_pixel(pixel: Color, mask: u8) -> Color {
    (pixel.0, pixel.1, pixel.2, masked_alpha(pixel.3, mask))
}

/// Whether `out` is `tile` under `mask`: it has the size of `tile`, each
/// pixel that the mask covers is that pixel of `tile` under the mask's value
/// there, and each other pixel is that of `tile`.
pub open spec fn is_masked(out: BitmapView, tile: BitmapView, mask: MaskView) -> bool {
    &&& out.width == tile.width
    &&& out.height == tile.height
    &&& forall|x: int, y: int|
        tile.contains(x, y) ==> #[trigger] out.at(x, y) == (if mask.contains(x, y) {
            masked_pixel(tile.at(x, y), mask.at(x, y))
        } else {
            tile.at(x, y)
        })
}

/// Whether `out` is `tile` with its corners rounded by `radius`: `tile`
/// under the rounded mask of its own size.
pub open spec fn is_rounded_tile(out: BitmapView, tile: BitmapView, radius: int) -> bool {
    &&& out.width == tile.width
    &&& out.height == tile.height
    &&& forall|x: int, y: int|
        tile.contains(x, y) ==> #[trigger] out.at(x, y) == masked_pixel(
            tile.at(x, y),
            mask_value(tile.width as int, tile.height as int, radius, x, y),
        )
}

/// Scales `alpha` by the mask value `mask`.
pub fn attenuate(alpha: u8, mask: u8) -> (out: u8)
    ensures
        out == masked_alpha(alpha, mask),
{
    let a: u16 = alpha as u16;
    let m: u16 = mask as u16;
    assert(a * m <= 255 * 255) by (nonlinear_arith)
        requires
            a <= 255,
            m <= 255,
    ;
    ((a * m) / 255) as u8
}

/// Applies `mask` to `tile` and returns the result as a new image, over a
/// buffer as long as that of `tile`; `tile` itself stays as it is.
pub fn apply_mask(tile: &Bitmap, mask: &Mask) -> (out: Bitmap)
    ensures
        is_masked(out@, tile@, mask@),
        out@.bytes.len() == tile@.bytes.len(),
{
    let (width, height) = bitmap_dimensions(tile);
    let (mask_width, mask_height) = mask_dimensions(mask);
    let mut out = bitmap_clone(tile);
    let mut y: u32 = 0;
    while y < mask_height
        invariant
            y <= mask_height,
            width == tile@.width,
            height == tile@.height,
            mask_width == mask@.width,
            mask_height == mask@.height,
            out@.width == tile@.width,
            out@.height == tile@.height,
            out@.bytes.len() == tile@.bytes.len(),
            forall|i: int, j: int|
                tile@.contains(i, j) ==> #[trigger] out@.at(i, j) == (if mask@.contains(i, j) && j
                    < y {
                    masked_pixel(tile@.at(i, j), mask@.at(i, j))
                } else {
                    tile@.at(i, j)
                }),
        decreases mask_height - y,
    {
        let mut x: u32 = 0;
        while x < mask_width
            invariant
                x <= mask_width,
                y < mask_height,
                width == tile@.width,
                height == tile@.height,
                mask_width == mask@.width,
                mask_height == mask@.height,
                out@.width == tile@.width,
                out@.height == tile@.height,
                out@.bytes.len() == tile@.bytes.len(),
                forall|i: int, j: int|
                    tile@.contains(i, j) ==> #[trigger] out@.at(i, j) == (if mask@.contains(i, j)
                        && (j < y || (j == y && i < x)) {
                        masked_pixel(tile@.at(i, j), mask@.at(i, j))
                    } else {
                        tile@.at(i, j)
                    }),
            decreases mask_width - x,
        {
            let ghost before = out@;
            if x < width && y < height {
                let value = mask_get(mask, x, y);
                let pixel = bitmap_get(&out, x, y);
                let alpha = attenuate(pixel.3, value);
                bitmap_put(&mut out, x, y, (pixel.0, pixel.1, pixel.2, alpha));
            }
            assert forall|i: int, j: int| tile@.contains(i, j) implies out@.at(i, j) == (if i == x
                && j == y {
                masked_pixel(tile@.at(i, j), mask@.at(i, j))
            } else {
                before.at(i, j)
            }) by {
                if i == x && j == y {
                    assert(before.at(i, j) == tile@.at(i, j));
                }
            }
            x += 1;
        }
        y += 1;
    }
    out
}

/// Rounds the corners of `tile` by `radius` and returns the result as a new
/// image: the rounded mask of the tile's size is made and applied to it. The
/// one refusal is that of a radius that is negative or larger than the tile
/// is wide or high.
pub fn round_tile_corners(tile: &Bitmap, radius: i32) -> (res: Result<Bitmap, SheetError>)
    ensures
        res is Ok <==> radius_fits(tile@.width as int, tile@.height as int, radius as int),
        res matches Ok(out) ==> is_rounded_tile(out@, tile@, radius as int) && out@.bytes.len()
            == tile@.bytes.len(),
        res matches Err(e) ==> e == SheetError::RadiusOutOfRange,
{
    let (width, height) = bitmap_dimensions(tile);
    if radius < 0 || radius as u32 > width || radius as u32 > height {
        return Err(SheetError::RadiusOutOfRange);
    }
    assert(width * height <= 4 * width * height) by (nonlinear_arith);
    let mask = mk_round_mask(width, height, radius);
    Ok(apply_mask(tile, &mask))
}

} // verus!
