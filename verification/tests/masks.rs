use tilesheet::mask::{cut_corner, mk_round_mask, Corner, CUT, OPAQUE};
use tilesheet::raster::Mask;

fn rows_of(mask: &Mask) -> Vec<String> {
    let mut rows = Vec::new();
    for y in 0..mask.height() {
        let mut row = String::new();
        for x in 0..mask.width() {
            match mask.get_pixel(x, y) {
                Some(255) => row.push('#'),
                Some(0) => row.push('.'),
                _ => row.push('?'),
            }
        }
        rows.push(row);
    }
    rows
}

fn count_cut(mask: &Mask) -> usize {
    let mut n = 0;
    for y in 0..mask.height() {
        for x in 0..mask.width() {
            if mask.get_pixel(x, y) == Some(0) {
                n += 1;
            }
        }
    }
    n
}

#[test]
fn mask_values_are_0_and_255() {
    assert_eq!(CUT, 0);
    assert_eq!(OPAQUE, 255);
}

#[test]
fn radius_zero_gives_an_opaque_mask() {
    let mask = mk_round_mask(7, 5, 0);
    assert_eq!((mask.width(), mask.height()), (7, 5));
    for y in 0..5 {
        for x in 0..7 {
            assert_eq!(mask.get_pixel(x, y), Some(255));
        }
    }
}

#[test]
fn radius_zero_on_an_empty_tile() {
    let mask = mk_round_mask(0, 0, 0);
    assert_eq!((mask.width(), mask.height()), (0, 0));
    let flat = mk_round_mask(9, 0, 0);
    assert_eq!((flat.width(), flat.height()), (9, 0));
}

#[test]
fn small_radii_cut_nothing() {
    assert_eq!(count_cut(&mk_round_mask(3, 3, 1)), 0);
    assert_eq!(count_cut(&mk_round_mask(5, 5, 2)), 0);
    assert_eq!(count_cut(&mk_round_mask(8, 8, 3)), 0);
}

#[test]
fn radius_six_on_twelve_by_twelve() {
    let mask = mk_round_mask(12, 12, 6);
    let expected = vec![
        "..########..",
        ".##########.",
        "############",
        "############",
        "############",
        "############",
        "############",
        "############",
        "############",
        "############",
        ".##########.",
        "..########..",
    ];
    assert_eq!(rows_of(&mask), expected);
}

#[test]
fn radius_ten_cuts_twelve_pixels_a_corner() {
    let mask = mk_round_mask(144, 190, 10);
    assert_eq!((mask.width(), mask.height()), (144, 190));
    assert_eq!(count_cut(&mask), 48);
    let cut_top_left = [
        (0, 0), (1, 0), (2, 0), (3, 0), (4, 0), (0, 1), (1, 1), (2, 1), (0, 2), (1, 2), (0, 3),
        (0, 4),
    ];
    for y in 0..10u32 {
        for x in 0..10u32 {
            let cut = cut_top_left.contains(&(x, y));
            let expected = if cut { Some(0) } else { Some(255) };
            assert_eq!(mask.get_pixel(x, y), expected, "top left {x},{y}");
            assert_eq!(mask.get_pixel(143 - x, y), expected, "top right {x},{y}");
            assert_eq!(mask.get_pixel(x, 189 - y), expected, "bottom left {x},{y}");
            assert_eq!(mask.get_pixel(143 - x, 189 - y), expected, "bottom right {x},{y}");
        }
    }
    assert_eq!(mask.get_pixel(72, 95), Some(255));
    assert_eq!(mask.get_pixel(72, 0), Some(255));
    assert_eq!(mask.get_pixel(0, 95), Some(255));
}

#[test]
fn distance_is_taken_from_the_innermost_pixel() {
    let mask = mk_round_mask(144, 190, 10);
    // 9 columns and 5 rows from (9, 9): 81 + 25 = 106 > 100.
    assert_eq!(mask.get_pixel(0, 4), Some(0));
    // 9 columns and 4 rows from (9, 9): 81 + 16 = 97 <= 100.
    assert_eq!(mask.get_pixel(0, 5), Some(255));
    // 8 columns and 6 rows: 64 + 36 = 100, which is not more than 100.
    assert_eq!(mask.get_pixel(1, 3), Some(255));
}

#[test]
fn full_radius_on_a_square_tile() {
    let mask = mk_round_mask(4, 4, 4);
    assert_eq!(rows_of(&mask), vec![".##.", "####", "####", ".##."]);
}

#[test]
fn full_radius_on_a_wide_tile() {
    let mask = mk_round_mask(6, 4, 4);
    assert_eq!(rows_of(&mask), vec![".####.", "######", "######", ".####."]);
}

#[test]
fn full_radius_on_a_larger_square() {
    let mask = mk_round_mask(20, 20, 10);
    assert_eq!(count_cut(&mask), 48);
    let top = vec![
        ".....##########.....",
        "...##############...",
        "..################..",
        ".##################.",
        ".##################.",
        "####################",
    ];
    let rows = rows_of(&mask);
    for (y, row) in top.iter().enumerate() {
        assert_eq!(&rows[y], row);
        assert_eq!(&rows[19 - y], row);
    }
    for y in 5..15 {
        assert_eq!(rows[y], "####################");
    }
}

#[test]
fn overlapping_corner_squares_are_judged_one_by_one() {
    // Each square is the whole tile here. (0, 0) is 3 columns and 3 rows from
    // the innermost pixel of the top left corner, which cuts it; the bottom
    // right corner, for which (0, 0) is the innermost pixel, does not bring
    // it back.
    let mask = mk_round_mask(4, 4, 4);
    assert_eq!(mask.get_pixel(0, 0), Some(0));
    assert_eq!(mask.get_pixel(3, 3), Some(0));
    assert_eq!(mask.get_pixel(1, 1), Some(255));
}

#[test]
fn cut_corner_cuts_one_corner_only() {
    let mut mask = Mask::filled(12, 12, 255).unwrap();
    cut_corner(&mut mask, Corner::TopRight, 6);
    let rows = rows_of(&mask);
    assert_eq!(rows[0], "##########..");
    assert_eq!(rows[1], "###########.");
    for y in 2..12 {
        assert_eq!(rows[y], "############");
    }
}

#[test]
fn cut_corner_keeps_what_it_does_not_cut() {
    let mut mask = Mask::filled(12, 12, 100).unwrap();
    cut_corner(&mut mask, Corner::BottomLeft, 6);
    assert_eq!(mask.get_pixel(0, 11), Some(0));
    assert_eq!(mask.get_pixel(1, 11), Some(0));
    assert_eq!(mask.get_pixel(0, 10), Some(0));
    assert_eq!(mask.get_pixel(2, 11), Some(100));
    assert_eq!(mask.get_pixel(5, 5), Some(100));
    assert_eq!(count_cut(&mask), 3);
}

#[test]
fn corner_edges() {
    assert!(Corner::TopLeft.on_left_edge() && Corner::TopLeft.on_top_edge());
    assert!(!Corner::TopRight.on_left_edge() && Corner::TopRight.on_top_edge());
    assert!(Corner::BottomLeft.on_left_edge() && !Corner::BottomLeft.on_top_edge());
    assert!(!Corner::BottomRight.on_left_edge() && !Corner::BottomRight.on_top_edge());
}

#[test]
fn offset_beyond_arc_squares_exactly() {
    // From the top left, offset (0, 0) is 9 and 9 from the innermost pixel.
    assert!(Corner::TopLeft.offset_beyond_arc(10, 0, 0));
    assert!(!Corner::TopLeft.offset_beyond_arc(10, 9, 9));
    // From the bottom right, offset (0, 0) is the innermost pixel itself.
    assert!(!Corner::BottomRight.offset_beyond_arc(10, 0, 0));
    assert!(Corner::BottomRight.offset_beyond_arc(10, 9, 9));
    assert!(Corner::TopRight.offset_beyond_arc(10, 9, 0));
    assert!(!Corner::TopRight.offset_beyond_arc(10, 0, 0));
    // 8 and 6 make exactly 100.
    assert!(!Corner::BottomRight.offset_beyond_arc(10, 8, 6));
    assert!(Corner::BottomRight.offset_beyond_arc(10, 8, 7));
}

#[test]
fn offset_beyond_arc_does_not_overflow() {
    let r = i32::MAX as u32;
    assert!(Corner::BottomRight.offset_beyond_arc(r, r - 1, r - 1));
    assert!(!Corner::BottomRight.offset_beyond_arc(r, r - 1, 0));
    assert!(Corner::TopLeft.offset_beyond_arc(r, 0, 0));
}
