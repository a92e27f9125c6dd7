//! Addressing of glyph cells: which cell of the sprite sheet holds the glyph
//! of a Hangul syllable.

use vstd::prelude::*;

verus! {

/// Side length, in pixels, of one square glyph cell.
pub const CELL_SIZE: u32 = 12;

/// Width, in pixels, of a packed glyph: three source columns per packed column.
pub const PACKED_WIDTH: u32 = 4;

/// Number of cells in one row of the sprite sheet.
pub const GRID_COLUMNS: u32 = 588;

/// Number of cell rows that hold the whole syllable block.
pub const GRID_ROWS: u32 = 19;

/// First code point of the Hangul syllable block.
pub const HANGUL_FIRST: u32 = 0xAC00;

/// Last code point of the Hangul syllable block.
pub const HANGUL_LAST: u32 = 0xD7A3;

/// Number of syllables in the block.
pub const SYLLABLE_COUNT: u32 = 11172;

/// Position of a glyph cell in the grid of the sprite sheet.
#[derive(Clone, Copy, Debug, PartialEq, Eq, Structural)]
pub struct GlyphCell {
    pub row: u32,
    pub col: u32,
}

impl GlyphCell {
    /// Horizontal pixel offset of the cell's left edge in the sheet.
    pub open spec fn origin_x(self) -> int {
        self.col * CELL_SIZE
    }

    /// Vertical pixel offset of the cell's top edge in the sheet.
    pub open spec fn origin_y(self) -> int {
        self.row * CELL_SIZE
    }

    /// Whether the cell lies in the part of the grid that holds syllables.
    pub open spec fn in_grid(self) -> bool {
        self.row < GRID_ROWS && self.col < GRID_COLUMNS
    }
}

/// Whether a character is a precomposed modern Hangul syllable.
pub open spec fn is_hangul_syllable(c: char) -> bool {
    HANGUL_FIRST <= c as u32 <= HANGUL_LAST
}

/// Zero-based position of a syllable within the syllable block.
pub open spec fn syllable_index(c: char) -> int {
    c as u32 - HANGUL_FIRST
}

/// The cell that holds the glyph of `c`: syllables fill the grid row by row
/// in code point order; any other character has no cell.
pub open spec fn glyph_cell(c: char) -> Option<GlyphCell> {
    if is_hangul_syllable(c) {
        Some(
            GlyphCell {
                row: (syllable_index(c) / GRID_COLUMNS as int) as u32,
                col: (syllable_index(c) % GRID_COLUMNS as int) as u32,
            },
        )
    } else {
        None
    }
}

/// The syllable whose glyph a cell of the grid holds.
pub open spec fn cell_syllable(cell: GlyphCell) -> char {
    (HANGUL_FIRST + cell.row * GRID_COLUMNS + cell.col) as char
}

/// Finds the cell of a character's glyph. Characters outside the syllable
/// block have none; that is an ordinary outcome, not a failure.
pub fn locate_glyph(c: char) -> (r: Option<GlyphCell>)
    ensures
        r == glyph_cell(c),
        r is Some <==> is_hangul_syllable(c),
{
    let code: u32 = c as u32;
    if code < HANGUL_FIRST || code > HANGUL_LAST {
        return None;
    }
    let index: u32 = code - HANGUL_FIRST;
    Some(GlyphCell { row: index / GRID_COLUMNS, col: index % GRID_COLUMNS })
}

/// Every syllable has a cell, and that cell lies within the 19 by 588 grid.
pub proof fn lemma_syllable_cell_in_grid(c: char)
    requires
        is_hangul_syllable(c),
    ensures
        glyph_cell(c) is Some,
        glyph_cell(c)->0.in_grid(),
        glyph_cell(c)->0.row * GRID_COLUMNS + glyph_cell(c)->0.col == syllable_index(c),
{
}

/// Characters outside the syllable block have no cell.
pub proof fn lemma_other_characters_have_no_cell(c: char)
    requires
        !is_hangul_syllable(c),
    ensures
        glyph_cell(c) is None,
{
}

/// Distinct syllables have distinct cells.
pub proof fn lemma_locator_injective(a: char, b: char)
    requires
        is_hangul_syllable(a),
        is_hangul_syllable(b),
        glyph_cell(a) == glyph_cell(b),
    ensures
        a == b,
{
    lemma_syllable_cell_in_grid(a);
    lemma_syllable_cell_in_grid(b);
}

/// Every cell of the grid holds the glyph of exactly the syllable that
/// `cell_syllable` names, so the 11172 syllables fill the grid completely.
pub proof fn lemma_grid_cell_holds_syllable(cell: GlyphCell)
    requires
        cell.in_grid(),
    ensures
        is_hangul_syllable(cell_syllable(cell)),
        glyph_cell(cell_syllable(cell)) == Some(cell),
{
    let code: int = HANGUL_FIRST + cell.row * GRID_COLUMNS + cell.col;
    assert(0xAC00 <= code <= 0xD7A3) by (nonlinear_arith)
        requires
            code == 0xAC00 + cell.row * 588 + cell.col,
            cell.row < 19,
            cell.col < 588,
    ;
    assert((cell.row * 588 + cell.col) / 588 == cell.row && (cell.row * 588 + cell.col) % 588
        == cell.col) by (nonlinear_arith)
        requires
            cell.col < 588,
    ;
}

} // verus!
