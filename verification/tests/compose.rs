use subpixel_font_generator::compose::{
    can_render, compose_lines, draw_over, process_text, text_in_sheet, Outcome,
};
use subpixel_font_generator::extract::{
    convert_all_glyphs, extract_hangul_image, SHEET_HEIGHT, SHEET_WIDTH,
};
use subpixel_font_generator::images::RgbImage;

fn sheet_pixel(x: u32, y: u32) -> (u8, u8, u8) {
    let r = if (x * 3 + y) % 4 == 0 { 0 } else { ((x * 13 + y * 7) % 255 + 1) as u8 };
    let g = ((x + y * 3) % 256) as u8;
    let b = ((x * 2 + y) % 255 + 1) as u8;
    (r, g, b)
}

fn sheet() -> RgbImage {
    let mut samples = Vec::with_capacity(3 * 7056 * 228);
    for y in 0..SHEET_HEIGHT {
        for x in 0..SHEET_WIDTH {
            let (r, g, b) = sheet_pixel(x, y);
            samples.push(r);
            samples.push(g);
            samples.push(b);
        }
    }
    RgbImage::from_samples(SHEET_WIDTH, SHEET_HEIGHT, &samples).unwrap()
}

fn threshold(v: u8) -> u8 {
    if v == 0 {
        0
    } else {
        255
    }
}

fn expect_slot(original: &RgbImage, processed: &RgbImage, index: u32, line: u32, cell: (u32, u32)) {
    let (row, col) = cell;
    for dy in 0..12 {
        for dx in 0..12 {
            assert_eq!(
                original.get_pixel_checked(12 * index + dx, 12 * line + dy),
                Some(sheet_pixel(12 * col + dx, 12 * row + dy))
            );
        }
        for dx in 0..4 {
            let x = 12 * col + 3 * dx;
            let y = 12 * row + dy;
            let expected = (
                threshold(sheet_pixel(x, y).0),
                threshold(sheet_pixel(x + 1, y).0),
                threshold(sheet_pixel(x + 2, y).0),
            );
            assert_eq!(processed.get_pixel_checked(4 * index + dx, 12 * line + dy), Some(expected));
        }
    }
}

fn expect_empty_slot(original: &RgbImage, processed: &RgbImage, index: u32, line: u32) {
    for dy in 0..12 {
        for dx in 0..12 {
            assert_eq!(original.get_pixel_checked(12 * index + dx, 12 * line + dy), Some((0, 0, 0)));
        }
        for dx in 0..4 {
            assert_eq!(processed.get_pixel_checked(4 * index + dx, 12 * line + dy), Some((0, 0, 0)));
        }
    }
}

#[test]
fn single_syllable_fills_one_slot() {
    let sheet = sheet();
    let render = process_text(&sheet, "\u{AC00}");
    assert_eq!((render.original.width(), render.original.height()), (12, 12));
    assert_eq!((render.processed.width(), render.processed.height()), (4, 12));
    assert_eq!((render.simulated.width(), render.simulated.height()), (36, 108));
    assert_eq!(render.outcomes, vec![vec![Outcome::Drawn]]);
    expect_slot(&render.original, &render.processed, 0, 0, (0, 0));
}

#[test]
fn space_leaves_its_slot_black() {
    let sheet = sheet();
    let render = process_text(&sheet, "\u{AC00} \u{B098}");
    assert_eq!((render.original.width(), render.original.height()), (36, 12));
    assert_eq!((render.processed.width(), render.processed.height()), (12, 12));
    assert_eq!((render.simulated.width(), render.simulated.height()), (108, 108));
    assert_eq!(render.outcomes, vec![vec![Outcome::Drawn, Outcome::Space, Outcome::Drawn]]);
    expect_slot(&render.original, &render.processed, 0, 0, (0, 0));
    expect_empty_slot(&render.original, &render.processed, 1, 0);
    expect_slot(&render.original, &render.processed, 2, 0, (2, 0));
}

#[test]
fn unsupported_character_leaves_its_slot_black() {
    let sheet = sheet();
    let render = process_text(&sheet, "A\u{AC01}");
    assert_eq!((render.original.width(), render.original.height()), (24, 12));
    assert_eq!(render.outcomes, vec![vec![Outcome::Unsupported, Outcome::Drawn]]);
    expect_empty_slot(&render.original, &render.processed, 0, 0);
    expect_slot(&render.original, &render.processed, 1, 0, (0, 1));
}

#[test]
fn lines_are_stacked_in_input_order() {
    let sheet = sheet();
    let render = process_text(&sheet, "\u{AC00}\u{D7A3}\n\u{D55C}");
    assert_eq!((render.original.width(), render.original.height()), (24, 24));
    assert_eq!((render.processed.width(), render.processed.height()), (8, 24));
    assert_eq!((render.simulated.width(), render.simulated.height()), (72, 216));
    assert_eq!(
        render.outcomes,
        vec![vec![Outcome::Drawn, Outcome::Drawn], vec![Outcome::Drawn]]
    );
    expect_slot(&render.original, &render.processed, 0, 0, (0, 0));
    expect_slot(&render.original, &render.processed, 1, 0, (18, 587));
    expect_slot(&render.original, &render.processed, 0, 1, (18, 4));
    expect_empty_slot(&render.original, &render.processed, 1, 1);
}

#[test]
fn shorter_lines_are_padded_with_black() {
    let sheet = sheet();
    let render = process_text(&sheet, "\u{AC00}\n\u{AC00}\u{AC01}\u{AC02}\n");
    assert_eq!((render.original.width(), render.original.height()), (36, 36));
    assert_eq!((render.processed.width(), render.processed.height()), (12, 36));
    assert_eq!(
        render.outcomes,
        vec![
            vec![Outcome::Drawn],
            vec![Outcome::Drawn, Outcome::Drawn, Outcome::Drawn],
            vec![]
        ]
    );
    expect_empty_slot(&render.original, &render.processed, 1, 0);
    expect_empty_slot(&render.original, &render.processed, 2, 0);
    expect_slot(&render.original, &render.processed, 2, 1, (0, 2));
    for index in 0..3 {
        expect_empty_slot(&render.original, &render.processed, index, 2);
    }
}

#[test]
fn empty_text_renders_an_empty_band() {
    let sheet = sheet();
    let render = process_text(&sheet, "");
    assert_eq!((render.original.width(), render.original.height()), (0, 12));
    assert_eq!((render.processed.width(), render.processed.height()), (0, 12));
    assert_eq!((render.simulated.width(), render.simulated.height()), (0, 108));
    assert_eq!(render.outcomes, vec![Vec::<Outcome>::new()]);
}

#[test]
fn text_of_spaces_renders_a_black_band() {
    let sheet = sheet();
    let render = process_text(&sheet, "  ");
    assert_eq!((render.original.width(), render.original.height()), (24, 12));
    assert_eq!(render.outcomes, vec![vec![Outcome::Space, Outcome::Space]]);
    assert!(render.original.to_samples().iter().all(|&v| v == 0));
    assert!(render.processed.to_samples().iter().all(|&v| v == 0));
}

#[test]
fn packed_composite_is_the_packed_original_composite() {
    let sheet = sheet();
    let render = process_text(&sheet, "\u{AC00} \u{B098}x\n\u{D7A3}");
    let repacked = convert_all_glyphs(&render.original);
    assert_eq!((repacked.width(), repacked.height()), (16, 24));
    assert_eq!(repacked.to_samples(), render.processed.to_samples());
}

#[test]
fn lines_are_composed_without_a_preview() {
    let sheet = sheet();
    let lines = vec![vec!['\u{AC00}', ' '], vec!['?', '\u{AC01}', '\u{AC02}']];
    let out = compose_lines(&sheet, &lines);
    assert_eq!((out.original.width(), out.original.height()), (36, 24));
    assert_eq!((out.processed.width(), out.processed.height()), (12, 24));
    assert_eq!(
        out.outcomes,
        vec![
            vec![Outcome::Drawn, Outcome::Space],
            vec![Outcome::Unsupported, Outcome::Drawn, Outcome::Drawn]
        ]
    );
    expect_slot(&out.original, &out.processed, 0, 0, (0, 0));
    expect_empty_slot(&out.original, &out.processed, 1, 0);
    expect_empty_slot(&out.original, &out.processed, 2, 0);
    expect_empty_slot(&out.original, &out.processed, 0, 1);
    expect_slot(&out.original, &out.processed, 1, 1, (0, 1));
    expect_slot(&out.original, &out.processed, 2, 1, (0, 2));
}

#[test]
fn no_lines_compose_to_nothing() {
    let sheet = sheet();
    let out = compose_lines(&sheet, &Vec::new());
    assert_eq!((out.original.width(), out.original.height()), (0, 0));
    assert_eq!((out.processed.width(), out.processed.height()), (0, 0));
    assert!(out.outcomes.is_empty());
}

#[test]
fn image_is_drawn_over_a_canvas() {
    let mut canvas = RgbImage::from_samples(4, 3, &[1u8; 36]).unwrap();
    let top = RgbImage::from_samples(2, 2, &[9, 8, 7, 6, 5, 4, 3, 2, 1, 0, 10, 20]).unwrap();
    draw_over(&mut canvas, &top, 2, 1);
    assert_eq!((canvas.width(), canvas.height()), (4, 3));
    for y in 0..3 {
        for x in 0..4 {
            let expected = match (x, y) {
                (2, 1) => (9, 8, 7),
                (3, 1) => (6, 5, 4),
                (2, 2) => (3, 2, 1),
                (3, 2) => (0, 10, 20),
                _ => (1, 1, 1),
            };
            assert_eq!(canvas.get_pixel_checked(x, y), Some(expected));
        }
    }
}

#[test]
fn glyph_drawn_over_a_canvas_equals_the_extracted_glyph() {
    let sheet = sheet();
    let (glyph, _) = extract_hangul_image(&sheet, '\u{AC05}').unwrap();
    let mut canvas = RgbImage::from_samples(12, 12, &[0u8; 432]).unwrap();
    draw_over(&mut canvas, &glyph, 0, 0);
    assert_eq!(canvas.to_samples(), glyph.to_samples());
}

#[test]
fn ordinary_texts_can_be_rendered() {
    assert!(can_render(""));
    assert!(can_render("\u{AC00}"));
    assert!(can_render("\u{C548}\u{B155}\u{D558}\u{C138}\u{C694}\n\u{BC18}\u{AC11}\u{C2B5}\u{B2C8}\u{B2E4}"));
}

#[test]
fn full_sheet_holds_every_text() {
    let sheet = sheet();
    assert!(text_in_sheet(&sheet, ""));
    assert!(text_in_sheet(&sheet, "\u{AC00} \u{D7A3}\nabc"));
}

#[test]
fn small_sheet_holds_only_texts_of_its_glyphs() {
    let small = RgbImage::from_samples(24, 12, &[0u8; 3 * 24 * 12]).unwrap();
    assert!(text_in_sheet(&small, "\u{AC00}\u{AC01} x\n\u{AC00}"));
    assert!(!text_in_sheet(&small, "\u{AC00}\u{AC02}"));
    assert!(!text_in_sheet(&small, "\n\n\u{D7A3}"));
}

#[test]
fn text_is_rendered_from_a_sheet_of_its_glyphs() {
    let mut samples = Vec::new();
    for _ in 0..24 * 12 {
        samples.extend([5u8, 6, 7]);
    }
    let small = RgbImage::from_samples(24, 12, &samples).unwrap();
    let render = process_text(&small, "\u{AC01}");
    assert_eq!(render.original.to_samples(), vec![5u8, 6, 7].repeat(144));
    assert_eq!(render.processed.to_samples(), vec![255u8; 4 * 12 * 3]);
}
