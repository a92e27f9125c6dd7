use subpixel_font_generator::extract::{
    convert_all_glyphs, copy_window, extract_hangul_image, glyph_in_sheet, pack_window,
    sheet_covers_grid, SHEET_HEIGHT, SHEET_WIDTH,
};
use subpixel_font_generator::locator::locate_glyph;
use subpixel_font_generator::images::RgbImage;

fn sheet_pixel(x: u32, y: u32) -> (u8, u8, u8) {
    let r = if (x + 2 * y) % 3 == 0 { 0 } else { ((x * 31 + y * 17) % 255 + 1) as u8 };
    let g = ((x * 5 + y) % 256) as u8;
    let b = ((x + y * 11) % 256) as u8;
    (r, g, b)
}

fn patterned(width: u32, height: u32) -> RgbImage {
    let mut samples = Vec::with_capacity(3 * width as usize * height as usize);
    for y in 0..height {
        for x in 0..width {
            let (r, g, b) = sheet_pixel(x, y);
            samples.push(r);
            samples.push(g);
            samples.push(b);
        }
    }
    RgbImage::from_samples(width, height, &samples).unwrap()
}

fn threshold(v: u8) -> u8 {
    if v == 0 {
        0
    } else {
        255
    }
}

fn expect_glyph(sheet: &RgbImage, c: char, row: u32, col: u32) {
    let (original, processed) = extract_hangul_image(sheet, c).unwrap();
    assert_eq!((original.width(), original.height()), (12, 12));
    assert_eq!((processed.width(), processed.height()), (4, 12));
    for dy in 0..12 {
        for dx in 0..12 {
            assert_eq!(
                original.get_pixel_checked(dx, dy),
                Some(sheet_pixel(col * 12 + dx, row * 12 + dy))
            );
        }
        for dx in 0..4 {
            let x = col * 12 + dx * 3;
            let y = row * 12 + dy;
            let expected = (
                threshold(sheet_pixel(x, y).0),
                threshold(sheet_pixel(x + 1, y).0),
                threshold(sheet_pixel(x + 2, y).0),
            );
            assert_eq!(processed.get_pixel_checked(dx, dy), Some(expected));
        }
    }
}

#[test]
fn first_syllable_is_cut_from_the_top_left_cell() {
    let sheet = patterned(SHEET_WIDTH, SHEET_HEIGHT);
    expect_glyph(&sheet, '\u{AC00}', 0, 0);
}

#[test]
fn last_syllable_is_cut_from_the_bottom_right_cell() {
    let sheet = patterned(SHEET_WIDTH, SHEET_HEIGHT);
    expect_glyph(&sheet, '\u{D7A3}', 18, 587);
}

#[test]
fn syllable_in_the_middle_is_cut_from_its_cell() {
    let sheet = patterned(SHEET_WIDTH, SHEET_HEIGHT);
    expect_glyph(&sheet, '\u{B098}', 2, 0);
    expect_glyph(&sheet, '\u{D55C}', 18, 4);
    expect_glyph(&sheet, '\u{AC01}', 0, 1);
}

#[test]
fn packed_glyph_is_four_by_twelve() {
    let sheet = patterned(SHEET_WIDTH, SHEET_HEIGHT);
    let (_, processed) = extract_hangul_image(&sheet, '\u{AC00}').unwrap();
    assert_eq!(processed.width(), 4);
    assert_eq!(processed.height(), 12);
    assert_eq!(processed.to_samples().len(), 4 * 12 * 3);
}

#[test]
fn character_outside_the_block_yields_no_glyph() {
    let sheet = patterned(SHEET_WIDTH, SHEET_HEIGHT);
    assert!(locate_glyph('A').is_none());
    assert!(extract_hangul_image(&sheet, 'A').is_none());
    assert!(extract_hangul_image(&sheet, ' ').is_none());
    assert!(extract_hangul_image(&sheet, '\u{D7A4}').is_none());
}

#[test]
fn sheet_of_one_cell_yields_the_first_glyph() {
    let sheet = patterned(12, 12);
    assert!(!sheet_covers_grid(&sheet));
    expect_glyph(&sheet, '\u{AC00}', 0, 0);
}

#[test]
fn packing_reads_the_red_channel_only() {
    // Green and blue are lit everywhere, red only in source column 1.
    let mut samples = Vec::new();
    for _y in 0..12 {
        for x in 0..12 {
            samples.push(if x == 1 { 7 } else { 0 });
            samples.push(200);
            samples.push(100);
        }
    }
    let sheet = RgbImage::from_samples(12, 12, &samples).unwrap();
    let (original, processed) = extract_hangul_image(&sheet, '\u{AC00}').unwrap();
    assert_eq!(original.to_samples(), samples);
    for dy in 0..12 {
        assert_eq!(processed.get_pixel_checked(0, dy), Some((0, 255, 0)));
        for dx in 1..4 {
            assert_eq!(processed.get_pixel_checked(dx, dy), Some((0, 0, 0)));
        }
    }
}

#[test]
fn packed_channels_are_black_or_full() {
    let sheet = patterned(SHEET_WIDTH, SHEET_HEIGHT);
    let (_, processed) = extract_hangul_image(&sheet, '\u{AE00}').unwrap();
    for v in processed.to_samples() {
        assert!(v == 0 || v == 255);
    }
}

#[test]
fn whole_sheet_is_packed_to_a_third_of_its_width() {
    let sheet = patterned(30, 5);
    let packed = convert_all_glyphs(&sheet);
    assert_eq!((packed.width(), packed.height()), (10, 5));
    for y in 0..5 {
        for x in 0..10 {
            let expected = (
                threshold(sheet_pixel(3 * x, y).0),
                threshold(sheet_pixel(3 * x + 1, y).0),
                threshold(sheet_pixel(3 * x + 2, y).0),
            );
            assert_eq!(packed.get_pixel_checked(x, y), Some(expected));
        }
    }
}

#[test]
fn columns_beyond_the_last_full_triple_are_dropped() {
    let sheet = patterned(8, 2);
    let packed = convert_all_glyphs(&sheet);
    assert_eq!((packed.width(), packed.height()), (2, 2));
    let narrow = patterned(2, 3);
    let nothing = convert_all_glyphs(&narrow);
    assert_eq!((nothing.width(), nothing.height()), (0, 3));
    assert!(nothing.to_samples().is_empty());
}

#[test]
fn packed_sheet_holds_the_packed_glyph_of_every_cell() {
    let sheet = patterned(SHEET_WIDTH, SHEET_HEIGHT);
    let packed_sheet = convert_all_glyphs(&sheet);
    assert_eq!((packed_sheet.width(), packed_sheet.height()), (2352, 228));
    for code in 0xAC00u32..=0xD7A3 {
        let c = char::from_u32(code).unwrap();
        let cell = locate_glyph(c).unwrap();
        let (_, processed) = extract_hangul_image(&sheet, c).unwrap();
        let window = copy_window(&packed_sheet, cell.col * 4, cell.row * 12, 4, 12);
        assert_eq!(window.to_samples(), processed.to_samples());
    }
}

#[test]
fn packed_glyphs_reassemble_to_the_packed_sheet() {
    // A sheet of three by two cells, walked cell by cell.
    let sheet = patterned(36, 24);
    let packed_sheet = convert_all_glyphs(&sheet);
    for row in 0..2 {
        for col in 0..3 {
            let glyph = pack_window(&sheet, col * 12, row * 12, 4, 12);
            for dy in 0..12 {
                for dx in 0..4 {
                    assert_eq!(
                        glyph.get_pixel_checked(dx, dy),
                        packed_sheet.get_pixel_checked(col * 4 + dx, row * 12 + dy)
                    );
                }
            }
        }
    }
}

#[test]
fn window_is_copied_pixel_for_pixel() {
    let sheet = patterned(20, 10);
    let window = copy_window(&sheet, 3, 4, 5, 6);
    assert_eq!((window.width(), window.height()), (5, 6));
    for y in 0..6 {
        for x in 0..5 {
            assert_eq!(window.get_pixel_checked(x, y), Some(sheet_pixel(3 + x, 4 + y)));
        }
    }
    let empty = copy_window(&sheet, 20, 10, 0, 0);
    assert_eq!((empty.width(), empty.height()), (0, 0));
}

#[test]
fn sheet_must_hold_the_whole_grid() {
    assert_eq!(SHEET_WIDTH, 588 * 12);
    assert_eq!(SHEET_HEIGHT, 19 * 12);
    assert!(sheet_covers_grid(&patterned(7056, 228)));
    assert!(sheet_covers_grid(&patterned(7060, 230)));
    assert!(!sheet_covers_grid(&patterned(7055, 228)));
    assert!(!sheet_covers_grid(&patterned(7056, 227)));
}

#[test]
fn full_sheet_holds_every_glyph() {
    let sheet = patterned(SHEET_WIDTH, SHEET_HEIGHT);
    assert!(glyph_in_sheet(&sheet, '\u{AC00}'));
    assert!(glyph_in_sheet(&sheet, '\u{D7A3}'));
    assert!(glyph_in_sheet(&sheet, 'A'));
}

#[test]
fn small_sheet_holds_only_the_glyphs_of_its_cells() {
    // Two cells wide and one cell high, less one pixel column.
    let sheet = patterned(23, 12);
    assert!(glyph_in_sheet(&sheet, '\u{AC00}'));
    assert!(!glyph_in_sheet(&sheet, '\u{AC01}'));
    assert!(!glyph_in_sheet(&sheet, '\u{AE4C}'));
    assert!(glyph_in_sheet(&sheet, ' '));
    let shallow = patterned(24, 11);
    assert!(!glyph_in_sheet(&shallow, '\u{AC00}'));
    let two = patterned(24, 12);
    assert!(glyph_in_sheet(&two, '\u{AC01}'));
    assert!(!glyph_in_sheet(&two, '\u{AC02}'));
}
