use tilesheet::compose::round_tile_corners;
use tilesheet::error::SheetError;
use tilesheet::mask::mk_round_mask;
use tilesheet::raster::Bitmap;
use tilesheet::sheet::{new_sheet, process_image};

fn colour_at(x: u32, y: u32) -> (u8, u8, u8) {
    ((x % 251) as u8, (y % 241) as u8, ((x + 3 * y) % 239) as u8)
}

fn sheet_of(width: u32, height: u32, alpha: impl Fn(u32, u32) -> u8) -> Bitmap {
    let mut data = Vec::new();
    for y in 0..height {
        for x in 0..width {
            let (r, g, b) = colour_at(x, y);
            data.extend_from_slice(&[r, g, b, alpha(x, y)]);
        }
    }
    Bitmap::from_raw(width, height, data).unwrap()
}

fn block_of(sheet: &Bitmap, left: u32, top: u32, width: u32, height: u32) -> Bitmap {
    let mut data = Vec::new();
    for y in 0..height {
        for x in 0..width {
            let (r, g, b, a) = sheet.get_pixel(left + x, top + y).unwrap();
            data.extend_from_slice(&[r, g, b, a]);
        }
    }
    Bitmap::from_raw(width, height, data).unwrap()
}

#[test]
fn two_tiles_of_144_by_190_with_radius_10() {
    let sheet = sheet_of(288, 190, |_, _| 255);
    let out = process_image(&sheet, 144, 190, 10).unwrap();
    assert_eq!((out.width(), out.height()), (288, 190));
    let mask = mk_round_mask(144, 190, 10);
    for tile in 0..2u32 {
        let left = tile * 144;
        let mut cut = 0;
        for y in 0..190 {
            for x in 0..144 {
                let (r, g, b) = colour_at(left + x, y);
                let got = out.get_pixel(left + x, y).unwrap();
                if mask.get_pixel(x, y) == Some(0) {
                    assert_eq!(got, (r, g, b, 0));
                    cut += 1;
                } else {
                    assert_eq!(got, (r, g, b, 255));
                }
            }
        }
        assert_eq!(cut, 48);
        for (x, y) in [(0, 0), (143, 0), (0, 189), (143, 189), (4, 0), (0, 4)] {
            assert_eq!(out.get_pixel(left + x, y).unwrap().3, 0);
        }
        for (x, y) in [(5, 0), (0, 5), (138, 0), (143, 184)] {
            assert_eq!(out.get_pixel(left + x, y).unwrap().3, 255);
        }
        assert_eq!(out.get_pixel(left + 72, 95), sheet.get_pixel(left + 72, 95));
    }
}

#[test]
fn centre_alpha_is_that_of_the_source() {
    let sheet = sheet_of(288, 190, |x, y| if (x % 144, y) == (72, 95) { 0 } else { 255 });
    let out = process_image(&sheet, 144, 190, 10).unwrap();
    assert_eq!(out.get_pixel(72, 95).unwrap().3, 0);
    assert_eq!(out.get_pixel(216, 95).unwrap().3, 0);
    assert_eq!(out.get_pixel(73, 95).unwrap().3, 255);
}

#[test]
fn exact_sheet_keeps_size_and_opaque_colour() {
    let sheet = sheet_of(36, 24, |_, _| 255);
    let out = process_image(&sheet, 12, 12, 6).unwrap();
    assert_eq!((out.width(), out.height()), (36, 24));
    let mask = mk_round_mask(12, 12, 6);
    for y in 0..24 {
        for x in 0..36 {
            let got = out.get_pixel(x, y).unwrap();
            let (r, g, b) = colour_at(x, y);
            if mask.get_pixel(x % 12, y % 12) == Some(255) {
                assert_eq!(got, (r, g, b, 255));
            } else {
                assert_eq!(got, (r, g, b, 0));
            }
        }
    }
}

#[test]
fn every_tile_is_rounded_like_the_first() {
    let sheet = sheet_of(36, 24, |_, _| 255);
    let out = process_image(&sheet, 12, 12, 6).unwrap();
    for row in 0..2 {
        for col in 0..3 {
            for y in 0..12 {
                for x in 0..12 {
                    let first = out.get_pixel(x, y).unwrap().3;
                    let here = out.get_pixel(12 * col + x, 12 * row + y).unwrap().3;
                    assert_eq!(first, here);
                }
            }
        }
    }
    assert_eq!(out.get_pixel(12, 12).unwrap().3, 0);
    assert_eq!(out.get_pixel(23, 23).unwrap().3, 0);
    assert_eq!(out.get_pixel(14, 12).unwrap().3, 255);
}

#[test]
fn leftover_strips_are_dropped() {
    let sheet = sheet_of(10, 7, |_, _| 255);
    let out = process_image(&sheet, 4, 3, 0).unwrap();
    assert_eq!((out.width(), out.height()), (8, 6));
    for y in 0..6 {
        for x in 0..8 {
            assert_eq!(out.get_pixel(x, y), sheet.get_pixel(x, y));
        }
    }
    assert_eq!(out.get_pixel(8, 0), None);
    assert_eq!(out.get_pixel(0, 6), None);
}

#[test]
fn tile_larger_than_the_sheet_gives_an_empty_sheet() {
    let sheet = sheet_of(10, 7, |_, _| 255);
    let out = process_image(&sheet, 11, 3, 1).unwrap();
    assert_eq!((out.width(), out.height()), (0, 6));
    let out = process_image(&sheet, 5, 8, 1).unwrap();
    assert_eq!((out.width(), out.height()), (10, 0));
    let out = process_image(&sheet, 144, 190, 10).unwrap();
    assert_eq!((out.width(), out.height()), (0, 0));
}

#[test]
fn empty_sheet_gives_an_empty_sheet() {
    let sheet = Bitmap::from_raw(0, 0, Vec::new()).unwrap();
    let out = process_image(&sheet, 144, 190, 10).unwrap();
    assert_eq!((out.width(), out.height()), (0, 0));
}

#[test]
fn zero_tile_size_is_refused() {
    let sheet = sheet_of(10, 7, |_, _| 255);
    assert_eq!(process_image(&sheet, 0, 3, 0).err(), Some(SheetError::ZeroTileSize));
    assert_eq!(process_image(&sheet, 4, 0, 0).err(), Some(SheetError::ZeroTileSize));
    assert_eq!(process_image(&sheet, 0, 0, -1).err(), Some(SheetError::ZeroTileSize));
}

#[test]
fn radius_out_of_range_is_refused() {
    let sheet = sheet_of(10, 7, |_, _| 255);
    assert_eq!(process_image(&sheet, 4, 3, -1).err(), Some(SheetError::RadiusOutOfRange));
    assert_eq!(process_image(&sheet, 4, 3, 4).err(), Some(SheetError::RadiusOutOfRange));
    assert_eq!(process_image(&sheet, 3, 4, 4).err(), Some(SheetError::RadiusOutOfRange));
    assert!(process_image(&sheet, 4, 3, 3).is_ok());
    assert_eq!(process_image(&sheet, 144, 190, 191).err(), Some(SheetError::RadiusOutOfRange));
}

#[test]
fn transparent_pixels_keep_their_colour() {
    let sheet = sheet_of(8, 8, |x, _| if x < 4 { 0 } else { 255 });
    let out = process_image(&sheet, 8, 8, 0).unwrap();
    for y in 0..8 {
        for x in 0..8 {
            let (r, g, b) = colour_at(x, y);
            let a = if x < 4 { 0 } else { 255 };
            assert_eq!(out.get_pixel(x, y), Some((r, g, b, a)));
        }
    }
    assert_eq!(out.into_raw(), sheet.into_raw());
}

#[test]
fn cut_pixels_keep_their_colour() {
    let sheet = Bitmap::from_raw(12, 12, [200u8, 100, 50, 255].repeat(144)).unwrap();
    let out = process_image(&sheet, 12, 12, 6).unwrap();
    assert_eq!(out.get_pixel(0, 0), Some((200, 100, 50, 0)));
    assert_eq!(out.get_pixel(11, 11), Some((200, 100, 50, 0)));
    assert_eq!(out.get_pixel(6, 6), Some((200, 100, 50, 255)));
}

#[test]
fn half_transparent_pixels_keep_their_alpha() {
    let sheet = sheet_of(16, 16, |x, y| (16 * y + x) as u8);
    let out = process_image(&sheet, 8, 8, 3).unwrap();
    let mask = mk_round_mask(8, 8, 3);
    for y in 0..16 {
        for x in 0..16 {
            let (r, g, b) = colour_at(x, y);
            let alpha = if mask.get_pixel(x % 8, y % 8) == Some(0) { 0 } else { (16 * y + x) as u8 };
            assert_eq!(out.get_pixel(x, y), Some((r, g, b, alpha)));
        }
    }
    let every = sheet_of(16, 16, |x, y| (16 * y + x) as u8);
    let same = process_image(&every, 16, 16, 0).unwrap();
    assert_eq!(same.into_raw(), every.into_raw());
}

#[test]
fn every_block_is_its_tile_rounded_alone() {
    let sheet = sheet_of(30, 20, |x, y| (11 * x + 5 * y) as u8);
    let out = process_image(&sheet, 10, 10, 5).unwrap();
    for row in 0..2 {
        for col in 0..3 {
            let tile = block_of(&sheet, 10 * col, 10 * row, 10, 10);
            let rounded = round_tile_corners(&tile, 5).unwrap();
            let block = block_of(&out, 10 * col, 10 * row, 10, 10);
            assert_eq!(block.into_raw(), rounded.into_raw());
        }
    }
}

#[test]
fn process_image_agrees_with_the_image_crate() {
    let sheet = sheet_of(30, 20, |x, y| if (x + y) % 3 == 0 { 255 } else { (7 * x + y) as u8 });
    let out = process_image(&sheet, 10, 10, 5).unwrap();

    let source = image::RgbaImage::from_raw(30, 20, sheet.into_raw()).unwrap();
    let mask = mk_round_mask(10, 10, 5);
    let mut expected = image::RgbaImage::new(30, 20);
    for row in 0..2u32 {
        for col in 0..3u32 {
            let mut tile = image::imageops::crop_imm(&source, col * 10, row * 10, 10, 10).to_image();
            for (x, y, p) in tile.enumerate_pixels_mut() {
                let m = mask.get_pixel(x, y).unwrap() as u16;
                p.0[3] = ((p.0[3] as u16 * m) / 255) as u8;
            }
            image::imageops::replace(&mut expected, &tile, (col * 10) as i64, (row * 10) as i64);
        }
    }
    assert_eq!((out.width(), out.height()), (30, 20));
    assert_eq!(out.into_raw(), expected.into_raw());
}

#[test]
fn result_lies_over_a_buffer_of_its_own_size() {
    let mut data = vec![255u8; 4 * 10 * 7];
    data.extend_from_slice(&[1, 2, 3]);
    let sheet = Bitmap::from_raw(10, 7, data).unwrap();
    let out = process_image(&sheet, 4, 3, 1).unwrap();
    assert_eq!(out.into_raw().len(), 4 * 8 * 6);
    assert_eq!(sheet.into_raw().len(), 4 * 10 * 7 + 3);
}

#[test]
fn process_image_leaves_the_source_alone() {
    let sheet = sheet_of(12, 12, |_, _| 255);
    let before = sheet_of(12, 12, |_, _| 255).into_raw();
    let _ = process_image(&sheet, 12, 12, 6).unwrap();
    assert_eq!(sheet.into_raw(), before);
}

#[test]
fn new_sheet_of_three_by_two_tiles_of_fifty() {
    let img = new_sheet(50, 50, 3, 2).unwrap();
    assert_eq!((img.width(), img.height()), (150, 100));
    for y in 0..100 {
        for x in 0..150 {
            assert_eq!(img.get_pixel(x, y), Some((0, 0, 0, 0)));
        }
    }
    assert_eq!(img.into_raw(), vec![0u8; 150 * 100 * 4]);
}

#[test]
fn new_sheet_with_default_tiles() {
    let img = new_sheet(144, 190, 2, 1).unwrap();
    assert_eq!((img.width(), img.height()), (288, 190));
}

#[test]
fn new_sheet_without_tiles_is_empty() {
    let img = new_sheet(144, 190, 0, 5).unwrap();
    assert_eq!((img.width(), img.height()), (0, 950));
    let img = new_sheet(0, 0, 7, 7).unwrap();
    assert_eq!((img.width(), img.height()), (0, 0));
}

#[test]
fn new_sheet_refuses_what_does_not_fit() {
    assert_eq!(new_sheet(u32::MAX, 1, 2, 1).err(), Some(SheetError::TooLarge));
    assert_eq!(new_sheet(1, 65536, 1, 65536).err(), Some(SheetError::TooLarge));
    assert_eq!(new_sheet(u32::MAX, u32::MAX, 1, 1).err(), Some(SheetError::TooLarge));
}
