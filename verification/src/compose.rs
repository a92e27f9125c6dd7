//! The compositor: lays the glyphs of a text out in reading order, one slot
//! per character and one band of slots per line, once as the sheet holds
//! them and once packed.

use crate::extract::{
    extract_hangul_image, glyph_available, glyph_in_sheet, glyph_original, glyph_packed,
    lemma_glyph_packed_extent, packed,
};
use crate::images::{RgbImage, RgbaImage};
use crate::locator::{glyph_cell, is_hangul_syllable, GlyphCell, CELL_SIZE, PACKED_WIDTH};
use crate::raster::{black, lemma_rasters_equal, Raster, Rgb};
use crate::simulate::{can_simulate, simulate_subpixel, simulation_fits};
use crate::text::{
    lemma_max_line_len_bounds, lemma_split_lines_characters, max_line_len, max_line_length,
    rows_view, split_lines, text_chars, text_lines,
};
use vstd::prelude::*;

verus! {

/// The character that takes a slot without having a glyph drawn or missed.
pub const SPACE: char = ' ';

/// Which of the two composites is meant.
pub enum Layer {
    /// Glyphs as the sheet holds them, twelve pixels to a slot.
    Original,
    /// Packed glyphs, four pixels to a slot.
    Packed,
}

/// What became of one character of the text.
#[derive(Clone, Copy, Debug, PartialEq, Eq, Structural)]
pub enum Outcome {
    /// The glyph of the character was drawn into its slot.
    Drawn,
    /// The character is a space; its slot stays empty.
    Space,
    /// The character has no glyph in the sheet; its slot stays empty.
    Unsupported,
}

/// The composites of a text and what became of each of its characters.
pub struct Composite {
    /// The glyphs as the sheet holds them.
    pub original: RgbImage,
    /// The packed glyphs.
    pub processed: RgbImage,
    /// One row per line and one entry per character, in input order.
    pub outcomes: Vec<Vec<Outcome>>,
}

/// The three rasters that text mode produces, and what became of each character.
pub struct TextRender {
    /// The glyphs as the sheet holds them.
    pub original: RgbImage,
    /// The packed glyphs.
    pub processed: RgbImage,
    /// The subpixel preview of the packed glyphs.
    pub simulated: RgbaImage,
    /// One row per line and one entry per character, in input order.
    pub outcomes: Vec<Vec<Outcome>>,
}

/// Width in pixels of the given number of slots.
pub open spec fn slots_width(layer: Layer, slots: int) -> int {
    match layer {
        Layer::Original => 12 * slots,
        Layer::Packed => 4 * slots,
    }
}

/// The slot that pixel column `x` belongs to.
pub open spec fn slot_of(layer: Layer, x: int) -> int {
    match layer {
        Layer::Original => x / 12,
        Layer::Packed => x / 4,
    }
}

/// Position of pixel column `x` within its slot.
pub open spec fn offset_in_slot(layer: Layer, x: int) -> int {
    match layer {
        Layer::Original => x % 12,
        Layer::Packed => x % 4,
    }
}

/// The glyph of a cell in the form that a layer shows.
pub open spec fn glyph_layer(sheet: Raster<Rgb>, cell: GlyphCell, layer: Layer) -> Raster<Rgb> {
    match layer {
        Layer::Original => glyph_original(sheet, cell),
        Layer::Packed => glyph_packed(sheet, cell),
    }
}

/// The character in the given slot of the given line, if the text has one there.
pub open spec fn character_at(lines: Seq<Seq<char>>, line: int, index: int) -> Option<char> {
    if 0 <= line < lines.len() && 0 <= index < lines[line].len() {
        Some(lines[line][index])
    } else {
        None
    }
}

/// What becomes of a character.
pub open spec fn outcome_of(c: char) -> Outcome {
    if c == SPACE {
        Outcome::Space
    } else if is_hangul_syllable(c) {
        Outcome::Drawn
    } else {
        Outcome::Unsupported
    }
}

/// What becomes of each character of a text.
pub open spec fn outcomes_of(lines: Seq<Seq<char>>) -> Seq<Seq<Outcome>> {
    Seq::new(
        lines.len(),
        |line: int| Seq::new(lines[line].len(), |index: int| outcome_of(lines[line][index])),
    )
}

/// The colour of a composite at `(x, y)`: the pixel of the glyph of the
/// character whose slot `(x, y)` lies in, and black where the slot has no
/// character or the character has no glyph.
pub open spec fn composite_pixel(
    sheet: Raster<Rgb>,
    lines: Seq<Seq<char>>,
    layer: Layer,
    x: int,
    y: int,
) -> Rgb {
    match character_at(lines, y / 12, slot_of(layer, x)) {
        Some(c) => match glyph_cell(c) {
            Some(cell) => glyph_layer(sheet, cell, layer).at(offset_in_slot(layer, x), y % 12),
            None => black(),
        },
        None => black(),
    }
}

/// The composite of a text: as many slots wide as the longest line is long,
/// and one band of twelve pixels high for every line.
pub open spec fn composite(sheet: Raster<Rgb>, lines: Seq<Seq<char>>, layer: Layer) -> Raster<Rgb> {
    Raster::from_fn(
        slots_width(layer, max_line_len(lines) as int) as nat,
        12 * lines.len(),
        |x: int, y: int| composite_pixel(sheet, lines, layer, x, y),
    )
}

/// Whether slot `index` of line `line` comes before slot `next_index` of
/// line `next_line` in reading order.
spec fn comes_before(line: int, index: int, next_line: int, next_index: int) -> bool {
    line < next_line || (line == next_line && index < next_index)
}

/// The composite while it is being assembled: the slots before slot
/// `next_index` of line `next_line` are done, the others still black.
spec fn composite_until(
    sheet: Raster<Rgb>,
    lines: Seq<Seq<char>>,
    layer: Layer,
    next_line: int,
    next_index: int,
) -> Raster<Rgb> {
    Raster::from_fn(
        slots_width(layer, max_line_len(lines) as int) as nat,
        12 * lines.len(),
        |x: int, y: int|
            if comes_before(y / 12, slot_of(layer, x), next_line, next_index) {
                composite_pixel(sheet, lines, layer, x, y)
            } else {
                black()
            },
    )
}

/// Whether the sheet is large enough to hold the glyph of every character of
/// the text that has one.
pub open spec fn text_available(sheet: Raster<Rgb>, text: Seq<char>) -> bool {
    forall|k: int| 0 <= k < text.len() ==> glyph_available(sheet, #[trigger] text[k])
}

/// Whether the sheet is large enough to hold the glyph of every character of
/// the lines that has one.
pub open spec fn lines_available(sheet: Raster<Rgb>, lines: Seq<Seq<char>>) -> bool {
    forall|line: int, index: int|
        0 <= line < lines.len() && 0 <= index < lines[line].len() ==> glyph_available(
            sheet,
            #[trigger] lines[line][index],
        )
}

/// Whether the composites of the lines can be made on this machine: their
/// extent fits the coordinates of an image and their samples fit a vector.
pub open spec fn composite_fits(lines: Seq<Seq<char>>) -> bool {
    &&& 12 * max_line_len(lines) <= u32::MAX
    &&& 12 * lines.len() <= u32::MAX
    &&& 3 * (12 * max_line_len(lines)) * (12 * lines.len()) <= isize::MAX
}

/// Whether the composites of the lines and the preview of the packed one can
/// be made on this machine.
pub open spec fn render_fits(lines: Seq<Seq<char>>) -> bool {
    composite_fits(lines) && simulation_fits(4 * max_line_len(lines), 12 * lines.len())
}

/// A blank canvas is the composite before any slot is done.
proof fn lemma_composite_start(sheet: Raster<Rgb>, lines: Seq<Seq<char>>, layer: Layer)
    ensures
        composite_until(sheet, lines, layer, 0, 0) == Raster::filled(
            slots_width(layer, max_line_len(lines) as int) as nat,
            12 * lines.len(),
            black(),
        ),
{
}

/// Drawing the glyph of the next character into its slot completes that slot.
proof fn lemma_composite_draw(
    sheet: Raster<Rgb>,
    lines: Seq<Seq<char>>,
    layer: Layer,
    line: int,
    index: int,
)
    requires
        0 <= line < lines.len(),
        0 <= index < lines[line].len(),
        glyph_cell(lines[line][index]) is Some,
    ensures
        composite_until(sheet, lines, layer, line, index).covers(
            slots_width(layer, index),
            12 * line,
            slots_width(layer, 1) as nat,
            12,
        ),
        composite_until(sheet, lines, layer, line, index).overlay(
            glyph_layer(sheet, glyph_cell(lines[line][index])->0, layer),
            slots_width(layer, index),
            12 * line,
        ) == composite_until(sheet, lines, layer, line, index + 1),
{
    lemma_max_line_len_bounds(lines, line);
    let cell = glyph_cell(lines[line][index])->0;
    lemma_glyph_packed_extent(sheet, cell);
}

/// A character without a glyph leaves its slot as it is.
proof fn lemma_composite_skip(
    sheet: Raster<Rgb>,
    lines: Seq<Seq<char>>,
    layer: Layer,
    line: int,
    index: int,
)
    requires
        0 <= line < lines.len(),
        0 <= index < lines[line].len(),
        glyph_cell(lines[line][index]) is None,
    ensures
        composite_until(sheet, lines, layer, line, index) == composite_until(
            sheet,
            lines,
            layer,
            line,
            index + 1,
        ),
{
}

/// Past the last character of a line its band is done.
proof fn lemma_composite_line_end(
    sheet: Raster<Rgb>,
    lines: Seq<Seq<char>>,
    layer: Layer,
    line: int,
)
    requires
        0 <= line < lines.len(),
    ensures
        composite_until(sheet, lines, layer, line, lines[line].len() as int) == composite_until(
            sheet,
            lines,
            layer,
            line + 1,
            0,
        ),
{
}

/// Past the last line the composite is done.
proof fn lemma_composite_done(sheet: Raster<Rgb>, lines: Seq<Seq<char>>, layer: Layer)
    ensures
        composite_until(sheet, lines, layer, lines.len() as int, 0) == composite(
            sheet,
            lines,
            layer,
        ),
{
}

/// The packed composite is the original composite, packed: laying out packed
/// glyphs and packing laid-out glyphs come to the same.
pub proof fn lemma_packed_composite_is_composite_packed(
    sheet: Raster<Rgb>,
    lines: Seq<Seq<char>>,
)
    ensures
        composite(sheet, lines, Layer::Packed) == packed(
            composite(sheet, lines, Layer::Original),
        ),
{
    let direct = composite(sheet, lines, Layer::Packed);
    let original = composite(sheet, lines, Layer::Original);
    let repacked = packed(original);
    assert forall|p: (int, int)| direct.pixels.dom().contains(p) implies #[trigger] direct.pixels[p]
        == repacked.pixels[p] by {
        let (x, y) = p;
        assert((3 * x) % 12 == 3 * (x % 4) && (3 * x + 1) % 12 == 3 * (x % 4) + 1 && (3 * x + 2)
            % 12 == 3 * (x % 4) + 2);
        assert(original.contains(3 * x, y) && original.contains(3 * x + 1, y) && original.contains(
            3 * x + 2,
            y,
        ));
    }
}

/// Draws an image over another, its top left corner at `(x0, y0)`.
pub fn draw_over(canvas: &mut RgbImage, top: &RgbImage, x0: u32, y0: u32)
    requires
        old(canvas)@.covers(x0 as int, y0 as int, top@.width, top@.height),
    ensures
        final(canvas)@ == old(canvas)@.overlay(top@, x0 as int, y0 as int),
{
    let size = canvas.dimensions();
    let (width, height) = top.dimensions();
    proof {
        canvas.lemma_well_formed();
    }
    let mut dy: u32 = 0;
    while dy < height
        invariant
            dy <= height,
            top@.width == width,
            top@.height == height,
            canvas@.well_formed(),
            canvas@.width == size.0 == old(canvas)@.width,
            canvas@.height == size.1 == old(canvas)@.height,
            x0 + width <= size.0,
            y0 + height <= size.1,
            forall|x: int, y: int|
                0 <= x < size.0 && 0 <= y < size.1 ==> #[trigger] canvas@.at(x, y) == if 0 <= x - x0
                    < width && 0 <= y - y0 < dy {
                    top@.at(x - x0, y - y0)
                } else {
                    old(canvas)@.at(x, y)
                },
        decreases height - dy,
    {
        let mut dx: u32 = 0;
        while dx < width
            invariant
                dx <= width,
                dy < height,
                top@.width == width,
                top@.height == height,
                canvas@.well_formed(),
                canvas@.width == size.0 == old(canvas)@.width,
                canvas@.height == size.1 == old(canvas)@.height,
                x0 + width <= size.0,
                y0 + height <= size.1,
                forall|x: int, y: int|
                    0 <= x < size.0 && 0 <= y < size.1 ==> #[trigger] canvas@.at(x, y) == if 0 <= x
                        - x0 < width && (0 <= y - y0 < dy || (y - y0 == dy && x - x0 < dx)) {
                        top@.at(x - x0, y - y0)
                    } else {
                        old(canvas)@.at(x, y)
                    },
            decreases width - dx,
        {
            let p = top.get_pixel(dx, dy);
            canvas.put_pixel(x0 + dx, y0 + dy, p);
            dx = dx + 1;
        }
        dy = dy + 1;
    }
    proof {
        lemma_rasters_equal(canvas@, old(canvas)@.overlay(top@, x0 as int, y0 as int));
    }
}

/// Lays out the glyphs of the lines: the glyph of character `index` of line
/// `line` goes to slot `index` of band `line`. Spaces and characters
/// without a glyph leave their slot black, and the outcomes say which was which.
pub fn compose_lines(img: &RgbImage, lines: &Vec<Vec<char>>) -> (out: Composite)
    requires
        lines_available(img@, rows_view(*lines)),
        composite_fits(rows_view(*lines)),
    ensures
        out.original@ == composite(img@, rows_view(*lines), Layer::Original),
        out.processed@ == composite(img@, rows_view(*lines), Layer::Packed),
        out.original@.width == 12 * max_line_len(rows_view(*lines)),
        out.original@.height == 12 * lines@.len(),
        out.processed@.width == 4 * max_line_len(rows_view(*lines)),
        out.processed@.height == 12 * lines@.len(),
        rows_view(out.outcomes) == outcomes_of(rows_view(*lines)),
{
    let ghost sheet = img@;
    let ghost text = rows_view(*lines);
    let longest = max_line_length(lines);
    let count = lines.len();
    assert(3 * (4 * longest) * (12 * count) <= 3 * (12 * longest) * (12 * count))
        by (nonlinear_arith);
    let mut original = RgbImage::new(CELL_SIZE * (longest as u32), CELL_SIZE * (count as u32));
    let mut processed = RgbImage::new(PACKED_WIDTH * (longest as u32), CELL_SIZE * (count as u32));
    let mut outcomes: Vec<Vec<Outcome>> = Vec::new();
    proof {
        lemma_composite_start(sheet, text, Layer::Original);
        lemma_composite_start(sheet, text, Layer::Packed);
    }
    let mut line: usize = 0;
    while line < count
        invariant
            line <= count,
            count == lines@.len(),
            sheet == img@,
            text == rows_view(*lines),
            longest == max_line_len(text),
            lines_available(sheet, text),
            composite_fits(text),
            original@ == composite_until(sheet, text, Layer::Original, line as int, 0),
            processed@ == composite_until(sheet, text, Layer::Packed, line as int, 0),
            rows_view(outcomes) == outcomes_of(text).take(line as int),
        decreases count - line,
    {
        let characters = &lines[line];
        let mut row: Vec<Outcome> = Vec::new();
        let mut index: usize = 0;
        proof {
            lemma_max_line_len_bounds(text, line as int);
        }
        while index < characters.len()
            invariant
                index <= characters@.len(),
                line < count,
                count == lines@.len(),
                characters@ == text[line as int],
                characters@.len() <= longest,
                sheet == img@,
                text == rows_view(*lines),
                longest == max_line_len(text),
                lines_available(sheet, text),
                composite_fits(text),
                original@ == composite_until(
                    sheet,
                    text,
                    Layer::Original,
                    line as int,
                    index as int,
                ),
                processed@ == composite_until(sheet, text, Layer::Packed, line as int, index as int),
                row@ == outcomes_of(text)[line as int].take(index as int),
            decreases characters@.len() - index,
        {
            let c = characters[index];
            if c == SPACE {
                row.push(Outcome::Space);
                proof {
                    lemma_composite_skip(sheet, text, Layer::Original, line as int, index as int);
                    lemma_composite_skip(sheet, text, Layer::Packed, line as int, index as int);
                }
            } else {
                match extract_hangul_image(img, c) {
                    Some((glyph, packed_glyph)) => {
                        proof {
                            lemma_composite_draw(
                                sheet,
                                text,
                                Layer::Original,
                                line as int,
                                index as int,
                            );
                            lemma_composite_draw(
                                sheet,
                                text,
                                Layer::Packed,
                                line as int,
                                index as int,
                            );
                            lemma_glyph_packed_extent(sheet, glyph_cell(c)->0);
                        }
                        draw_over(
                            &mut original,
                            &glyph,
                            CELL_SIZE * (index as u32),
                            CELL_SIZE * (line as u32),
                        );
                        draw_over(
                            &mut processed,
                            &packed_glyph,
                            PACKED_WIDTH * (index as u32),
                            CELL_SIZE * (line as u32),
                        );
                        row.push(Outcome::Drawn);
                    },
                    None => {
                        row.push(Outcome::Unsupported);
                        proof {
                            lemma_composite_skip(
                                sheet,
                                text,
                                Layer::Original,
                                line as int,
                                index as int,
                            );
                            lemma_composite_skip(
                                sheet,
                                text,
                                Layer::Packed,
                                line as int,
                                index as int,
                            );
                        }
                    },
                }
            }
            index = index + 1;
        }
        proof {
            lemma_composite_line_end(sheet, text, Layer::Original, line as int);
            lemma_composite_line_end(sheet, text, Layer::Packed, line as int);
        }
        let ghost rows_before = outcomes@;
        outcomes.push(row);
        proof {
            assert(rows_view(outcomes).len() == line + 1) by {
                assert(rows_before.len() == outcomes_of(text).take(line as int).len());
            }
            assert forall|k: int| 0 <= k <= line implies #[trigger] rows_view(outcomes)[k]
                == outcomes_of(text)[k] by {
                if k < line {
                    assert(rows_before[k]@ == outcomes_of(text).take(line as int)[k]);
                }
            }
        }
        line = line + 1;
    }
    proof {
        lemma_composite_done(sheet, text, Layer::Original);
        lemma_composite_done(sheet, text, Layer::Packed);
    }
    Composite { original, processed, outcomes }
}

/// Whether the composites of a text and the preview of the packed one can be
/// made on this machine.
pub fn can_render(text: &str) -> (b: bool)
    ensures
        b == render_fits(split_lines(text@)),
{
    let chars = text_chars(text);
    let lines = text_lines(chars.as_slice());
    let longest = max_line_length(&lines);
    let count = lines.len();
    if longest > 0x0FFF_FFFF || count > 0x0FFF_FFFF {
        return false;
    }
    let w: u128 = longest as u128;
    let h: u128 = count as u128;
    assert(3 * (12 * w) * (12 * h) == 432 * (w * h)) by (nonlinear_arith);
    assert(w * h <= 0x0FFF_FFFF * 0x0FFF_FFFF) by (nonlinear_arith)
        requires
            w <= 0x0FFF_FFFF,
            h <= 0x0FFF_FFFF,
    ;
    432 * (w * h) <= isize::MAX as u128 && can_simulate(
        PACKED_WIDTH * (longest as u32),
        CELL_SIZE * (count as u32),
    )
}

/// Whether the image is large enough to hold the glyph of every character
/// of the text that has one.
pub fn text_in_sheet(img: &RgbImage, text: &str) -> (b: bool)
    ensures
        b == text_available(img@, text@),
{
    let chars = text_chars(text);
    let mut k: usize = 0;
    while k < chars.len()
        invariant
            k <= chars@.len(),
            chars@ == text@,
            forall|j: int| 0 <= j < k ==> glyph_available(img@, #[trigger] text@[j]),
        decreases chars@.len() - k,
    {
        if !glyph_in_sheet(img, chars[k]) {
            return false;
        }
        k = k + 1;
    }
    true
}

/// Renders a text: its lines are laid out as glyphs and as packed glyphs,
/// and the packed layout is previewed.
pub fn process_text(img: &RgbImage, text: &str) -> (render: TextRender)
    requires
        text_available(img@, text@),
        render_fits(split_lines(text@)),
    ensures
        render.original@ == composite(img@, split_lines(text@), Layer::Original),
        render.processed@ == composite(img@, split_lines(text@), Layer::Packed),
        render.original@.width == 12 * max_line_len(split_lines(text@)),
        render.original@.height == 12 * split_lines(text@).len(),
        render.processed@.width == 4 * max_line_len(split_lines(text@)),
        render.processed@.height == 12 * split_lines(text@).len(),
        render.simulated@.width == 36 * max_line_len(split_lines(text@)),
        render.simulated@.height == 108 * split_lines(text@).len(),
        rows_view(render.outcomes) == outcomes_of(split_lines(text@)),
{
    let chars = text_chars(text);
    let lines = text_lines(chars.as_slice());
    proof {
        let split = split_lines(text@);
        assert forall|line: int, index: int|
            0 <= line < split.len() && 0 <= index < split[line].len() implies glyph_available(
            img@,
            #[trigger] split[line][index],
        ) by {
            lemma_split_lines_characters(text@, line, index);
            let c = split[line][index];
            let k = choose|k: int| 0 <= k < text@.len() && text@[k] == c;
            assert(glyph_available(img@, text@[k]));
        }
    }
    let composed = compose_lines(img, &lines);
    let simulated = simulate_subpixel(&composed.processed);
    TextRender {
        original: composed.original,
        processed: composed.processed,
        simulated,
        outcomes: composed.outcomes,
    }
}

} // verus!
