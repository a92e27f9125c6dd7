//! Glyph extraction and subpixel packing: cutting a glyph cell out of the
//! sprite sheet, and compressing three source columns into the three
//! channels of one packed column.

use crate::binarize::{binarize, binarized, is_binary};
use crate::images::RgbImage;
use crate::locator::{
    cell_syllable, glyph_cell, is_hangul_syllable, lemma_grid_cell_holds_syllable,
    lemma_syllable_cell_in_grid, locate_glyph, GlyphCell, CELL_SIZE, GRID_COLUMNS, GRID_ROWS,
    PACKED_WIDTH,
};
use crate::raster::{lemma_rasters_equal, Raster, Rgb};
use vstd::prelude::*;

verus! {

/// Width in pixels of a sheet that holds the whole grid.
pub const SHEET_WIDTH: u32 = 7056;

/// Height in pixels of a sheet that holds the whole grid.
pub const SHEET_HEIGHT: u32 = 228;

/// The packed pixel at `(x, y)`: its red, green and blue channel say whether
/// the red channel of source column `3x`, `3x + 1` and `3x + 2` of row `y`
/// is lit. Green and blue of the source play no part.
pub open spec fn packed_pixel(source: Raster<Rgb>, x: int, y: int) -> Rgb {
    (
        binarized(source.at(3 * x, y).0),
        binarized(source.at(3 * x + 1, y).0),
        binarized(source.at(3 * x + 2, y).0),
    )
}

/// The packed form of a raster: a third of the width, rounded down, and the
/// same height.
pub open spec fn packed(source: Raster<Rgb>) -> Raster<Rgb> {
    Raster::from_fn(
        source.width / 3,
        source.height,
        |x: int, y: int| packed_pixel(source, x, y),
    )
}

/// Whether a sheet is large enough to hold the cell.
pub open spec fn cell_fits(sheet: Raster<Rgb>, cell: GlyphCell) -> bool {
    sheet.covers(cell.origin_x(), cell.origin_y(), CELL_SIZE as nat, CELL_SIZE as nat)
}

/// Whether a sheet is large enough to hold the glyph of a character, where
/// the character has one.
pub open spec fn glyph_available(sheet: Raster<Rgb>, c: char) -> bool {
    glyph_cell(c) matches Some(cell) ==> cell_fits(sheet, cell)
}

/// Whether a sheet is large enough to hold the whole grid of syllables.
pub open spec fn covers_grid(sheet: Raster<Rgb>) -> bool {
    sheet.width >= SHEET_WIDTH && sheet.height >= SHEET_HEIGHT
}

/// The glyph of a cell exactly as the sheet holds it.
pub open spec fn glyph_original(sheet: Raster<Rgb>, cell: GlyphCell) -> Raster<Rgb> {
    sheet.crop(cell.origin_x(), cell.origin_y(), CELL_SIZE as nat, CELL_SIZE as nat)
}

/// The packed glyph of a cell.
pub open spec fn glyph_packed(sheet: Raster<Rgb>, cell: GlyphCell) -> Raster<Rgb> {
    packed(glyph_original(sheet, cell))
}

/// Whether every channel of every pixel is black or full intensity.
pub open spec fn is_binarized(raster: Raster<Rgb>) -> bool {
    forall|x: int, y: int|
        raster.contains(x, y) ==> {
            let p = #[trigger] raster.at(x, y);
            is_binary(p.0) && is_binary(p.1) && is_binary(p.2)
        }
}

/// Copies the `width` by `height` window whose top left corner is at
/// `(x0, y0)` out of an image.
pub fn copy_window(img: &RgbImage, x0: u32, y0: u32, width: u32, height: u32) -> (out: RgbImage)
    requires
        img@.covers(x0 as int, y0 as int, width as nat, height as nat),
    ensures
        out@ == img@.crop(x0 as int, y0 as int, width as nat, height as nat),
{
    let size = img.dimensions();
    assert(3 * width * height <= 3 * size.0 * size.1) by (nonlinear_arith)
        requires
            width <= size.0,
            height <= size.1,
    ;
    let mut out = RgbImage::new(width, height);
    let mut dy: u32 = 0;
    while dy < height
        invariant
            dy <= height,
            out@.well_formed(),
            out@.width == width,
            out@.height == height,
            img@.covers(x0 as int, y0 as int, width as nat, height as nat),
            img@.width == size.0,
            img@.height == size.1,
            forall|x: int, y: int|
                0 <= x < width && 0 <= y < dy ==> #[trigger] out@.at(x, y) == img@.at(
                    x0 + x,
                    y0 + y,
                ),
        decreases height - dy,
    {
        let mut dx: u32 = 0;
        while dx < width
            invariant
                dx <= width,
                dy < height,
                out@.well_formed(),
                out@.width == width,
                out@.height == height,
                img@.covers(x0 as int, y0 as int, width as nat, height as nat),
                img@.width == size.0,
                img@.height == size.1,
                forall|x: int, y: int|
                    0 <= x < width && (0 <= y < dy || (y == dy && x < dx)) ==> #[trigger] out@.at(
                        x,
                        y,
                    ) == img@.at(x0 + x, y0 + y),
            decreases width - dx,
        {
            let p = img.get_pixel(x0 + dx, y0 + dy);
            out.put_pixel(dx, dy, p);
            dx = dx + 1;
        }
        dy = dy + 1;
    }
    proof {
        lemma_rasters_equal(out@, img@.crop(x0 as int, y0 as int, width as nat, height as nat));
    }
    out
}

/// Packs the window of an image whose top left corner is at `(x0, y0)` and
/// which is `3 * width` source pixels wide and `height` high into a
/// `width` by `height` image.
pub fn pack_window(img: &RgbImage, x0: u32, y0: u32, width: u32, height: u32) -> (out: RgbImage)
    requires
        img@.covers(x0 as int, y0 as int, (3 * width) as nat, height as nat),
    ensures
        out@ == packed(img@.crop(x0 as int, y0 as int, (3 * width) as nat, height as nat)),
{
    let size = img.dimensions();
    assert(3 * width * height <= 3 * size.0 * size.1) by (nonlinear_arith)
        requires
            3 * width <= size.0,
            height <= size.1,
    ;
    let mut out = RgbImage::new(width, height);
    let mut dy: u32 = 0;
    while dy < height
        invariant
            dy <= height,
            out@.well_formed(),
            out@.width == width,
            out@.height == height,
            img@.covers(x0 as int, y0 as int, (3 * width) as nat, height as nat),
            img@.width == size.0,
            img@.height == size.1,
            forall|x: int, y: int|
                0 <= x < width && 0 <= y < dy ==> #[trigger] out@.at(x, y) == (
                    binarized(img@.at(x0 + 3 * x, y0 + y).0),
                    binarized(img@.at(x0 + 3 * x + 1, y0 + y).0),
                    binarized(img@.at(x0 + 3 * x + 2, y0 + y).0),
                ),
        decreases height - dy,
    {
        let mut dx: u32 = 0;
        while dx < width
            invariant
                dx <= width,
                dy < height,
                out@.well_formed(),
                out@.width == width,
                out@.height == height,
                img@.covers(x0 as int, y0 as int, (3 * width) as nat, height as nat),
                img@.width == size.0,
                img@.height == size.1,
                forall|x: int, y: int|
                    0 <= x < width && (0 <= y < dy || (y == dy && x < dx)) ==> #[trigger] out@.at(
                        x,
                        y,
                    ) == (
                        binarized(img@.at(x0 + 3 * x, y0 + y).0),
                        binarized(img@.at(x0 + 3 * x + 1, y0 + y).0),
                        binarized(img@.at(x0 + 3 * x + 2, y0 + y).0),
                    ),
            decreases width - dx,
        {
            let sx: u32 = x0 + 3 * dx;
            let sy: u32 = y0 + dy;
            let r = img.get_pixel(sx, sy).0;
            let g = img.get_pixel(sx + 1, sy).0;
            let b = img.get_pixel(sx + 2, sy).0;
            out.put_pixel(dx, dy, (binarize(r), binarize(g), binarize(b)));
            dx = dx + 1;
        }
        dy = dy + 1;
    }
    proof {
        lemma_rasters_equal(
            out@,
            packed(img@.crop(x0 as int, y0 as int, (3 * width) as nat, height as nat)),
        );
    }
    out
}

/// Whether the image is large enough to hold the whole grid of syllables.
pub fn sheet_covers_grid(img: &RgbImage) -> (b: bool)
    ensures
        b == covers_grid(img@),
{
    let size = img.dimensions();
    size.0 >= SHEET_WIDTH && size.1 >= SHEET_HEIGHT
}

/// Whether the image is large enough to hold the glyph of a character,
/// where the character has one.
pub fn glyph_in_sheet(img: &RgbImage, c: char) -> (b: bool)
    ensures
        b == glyph_available(img@, c),
{
    match locate_glyph(c) {
        None => true,
        Some(cell) => {
            proof {
                lemma_syllable_cell_in_grid(c);
            }
            let size = img.dimensions();
            (cell.col + 1) * CELL_SIZE <= size.0 && (cell.row + 1) * CELL_SIZE <= size.1
        },
    }
}

/// Extracts the glyph of a character from the sprite sheet: the cell as it
/// stands, and its packed form. A character that is no Hangul syllable has
/// no glyph.
pub fn extract_hangul_image(img: &RgbImage, hangul: char) -> (r: Option<(RgbImage, RgbImage)>)
    requires
        glyph_available(img@, hangul),
    ensures
        r is Some <==> is_hangul_syllable(hangul),
        r matches Some((original, processed)) ==> {
            &&& original@ == glyph_original(img@, glyph_cell(hangul)->0)
            &&& processed@ == glyph_packed(img@, glyph_cell(hangul)->0)
        },
{
    match locate_glyph(hangul) {
        None => None,
        Some(cell) => {
            proof {
                lemma_syllable_cell_in_grid(hangul);
            }
            let x: u32 = cell.col * CELL_SIZE;
            let y: u32 = cell.row * CELL_SIZE;
            let original = copy_window(img, x, y, CELL_SIZE, CELL_SIZE);
            let processed = pack_window(img, x, y, PACKED_WIDTH, CELL_SIZE);
            Some((original, processed))
        },
    }
}

/// Packs the whole sheet: every three source columns become one packed
/// column, over the full height.
pub fn convert_all_glyphs(img: &RgbImage) -> (out: RgbImage)
    ensures
        out@ == packed(img@),
{
    let size = img.dimensions();
    pack_window(img, 0, 0, size.0 / 3, size.1)
}

/// A sheet that holds the whole grid holds every cell of it.
pub proof fn lemma_grid_sheet_fits_every_cell(sheet: Raster<Rgb>, cell: GlyphCell)
    requires
        covers_grid(sheet),
        cell.in_grid(),
    ensures
        cell_fits(sheet, cell),
{
}

/// A sheet that holds the whole grid holds the glyph of every character that
/// has one.
pub proof fn lemma_grid_sheet_fits_every_glyph(sheet: Raster<Rgb>, c: char)
    requires
        covers_grid(sheet),
    ensures
        glyph_available(sheet, c),
{
    if is_hangul_syllable(c) {
        lemma_syllable_cell_in_grid(c);
    }
}

/// Packing yields a binarized raster.
pub proof fn lemma_packed_is_binarized(source: Raster<Rgb>)
    ensures
        is_binarized(packed(source)),
{
}

/// A packed glyph is four pixels wide and twelve high.
pub proof fn lemma_glyph_packed_extent(sheet: Raster<Rgb>, cell: GlyphCell)
    ensures
        glyph_packed(sheet, cell).width == PACKED_WIDTH,
        glyph_packed(sheet, cell).height == CELL_SIZE,
        glyph_original(sheet, cell).width == CELL_SIZE,
        glyph_original(sheet, cell).height == CELL_SIZE,
{
}

/// Packing the whole sheet and packing one glyph agree: the window of the
/// packed sheet that belongs to a cell is the packed glyph of that cell.
pub proof fn lemma_packed_sheet_window_is_packed_glyph(sheet: Raster<Rgb>, cell: GlyphCell)
    requires
        cell_fits(sheet, cell),
    ensures
        packed(sheet).crop(
            cell.col * PACKED_WIDTH,
            cell.row * CELL_SIZE,
            PACKED_WIDTH as nat,
            CELL_SIZE as nat,
        ) == glyph_packed(sheet, cell),
{
}

/// The cell of the grid that a pixel of a packed sheet belongs to.
pub open spec fn packed_pixel_cell(x: int, y: int) -> GlyphCell {
    GlyphCell { row: (y / CELL_SIZE as int) as u32, col: (x / PACKED_WIDTH as int) as u32 }
}

/// The packed glyphs of all cells of the grid, each put at the place of its
/// cell: a raster of 588 by 19 packed glyphs.
pub open spec fn packed_glyph_grid(sheet: Raster<Rgb>) -> Raster<Rgb> {
    Raster::from_fn(
        (GRID_COLUMNS * PACKED_WIDTH) as nat,
        (GRID_ROWS * CELL_SIZE) as nat,
        |x: int, y: int|
            glyph_packed(sheet, packed_pixel_cell(x, y)).at(
                x % PACKED_WIDTH as int,
                y % CELL_SIZE as int,
            ),
    )
}

/// Every pixel of the packed grid belongs to the cell of a syllable.
pub proof fn lemma_packed_pixel_cell_holds_syllable(x: int, y: int)
    requires
        0 <= x < GRID_COLUMNS * PACKED_WIDTH,
        0 <= y < GRID_ROWS * CELL_SIZE,
    ensures
        packed_pixel_cell(x, y).in_grid(),
        glyph_cell(cell_syllable(packed_pixel_cell(x, y))) == Some(packed_pixel_cell(x, y)),
{
    lemma_grid_cell_holds_syllable(packed_pixel_cell(x, y));
}

/// Putting the packed glyphs of all syllables back into the grid gives the
/// packed sheet: packing the whole sheet and packing glyph by glyph yield
/// the same pixels.
pub proof fn lemma_packed_sheet_is_packed_glyph_grid(sheet: Raster<Rgb>)
    requires
        covers_grid(sheet),
    ensures
        packed(sheet).covers(
            0,
            0,
            (GRID_COLUMNS * PACKED_WIDTH) as nat,
            (GRID_ROWS * CELL_SIZE) as nat,
        ),
        packed(sheet).crop(
            0,
            0,
            (GRID_COLUMNS * PACKED_WIDTH) as nat,
            (GRID_ROWS * CELL_SIZE) as nat,
        ) == packed_glyph_grid(sheet),
        sheet.width == SHEET_WIDTH && sheet.height == SHEET_HEIGHT ==> packed(sheet)
            == packed_glyph_grid(sheet),
{
    let window = packed(sheet).crop(
        0,
        0,
        (GRID_COLUMNS * PACKED_WIDTH) as nat,
        (GRID_ROWS * CELL_SIZE) as nat,
    );
    let grid = packed_glyph_grid(sheet);
    assert forall|x: int, y: int| window.contains(x, y) implies #[trigger] window.at(x, y)
        == grid.at(x, y) by {
        let cell = packed_pixel_cell(x, y);
        lemma_packed_pixel_cell_holds_syllable(x, y);
        lemma_grid_sheet_fits_every_cell(sheet, cell);
        lemma_packed_sheet_window_is_packed_glyph(sheet, cell);
        let glyph_window = packed(sheet).crop(
            cell.col * PACKED_WIDTH,
            cell.row * CELL_SIZE,
            PACKED_WIDTH as nat,
            CELL_SIZE as nat,
        );
        assert(glyph_window.at(x % 4, y % 12) == packed(sheet).at(x, y));
    }
    lemma_rasters_equal(window, grid);
    if sheet.width == SHEET_WIDTH && sheet.height == SHEET_HEIGHT {
        lemma_rasters_equal(packed(sheet), window);
    }
}

} // verus!
