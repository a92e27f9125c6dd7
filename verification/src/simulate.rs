//! The subpixel preview: every pixel is spread over three adjacent subpixel
//! slots, one per channel, and the result is enlarged and softened the way a
//! striped display shows it.

use crate::extract::{
    extract_hangul_image, glyph_available, glyph_original, glyph_packed,
    lemma_glyph_packed_extent,
};
use crate::images::{RgbImage, RgbaImage};
use crate::locator::{glyph_cell, is_hangul_syllable, CELL_SIZE, PACKED_WIDTH};
use crate::raster::{lemma_rasters_equal, transparent, Raster, Rgb, Rgba};
use image::imageops::FilterType;
use vstd::prelude::*;

verus! {

/// Number of subpixel slots that one pixel is spread over, in each direction.
pub const SUBPIXELS: u32 = 3;

/// Factor by which the spread raster is enlarged, in each direction.
pub const UPSCALE: u32 = 3;

/// Factor between the extent of a raster and the extent of its preview.
pub const PREVIEW_SCALE: u32 = 9;

/// Standard deviation, in pixels, of the blur that softens the preview.
pub const BLUR_SIGMA: u8 = 1;

/// The pixel at `(x, y)` of the spread raster. Source pixel `(x / 3, y / 3)`
/// owns a block of three by three slots; the top row of the block holds its
/// red, green and blue channel from left to right, each alone and opaque,
/// and the two rows below stay transparent black.
pub open spec fn spread_pixel(source: Raster<Rgb>, x: int, y: int) -> Rgba {
    let p = source.at(x / 3, y / 3);
    if y % 3 != 0 {
        transparent()
    } else if x % 3 == 0 {
        (p.0, 0u8, 0u8, 255u8)
    } else if x % 3 == 1 {
        (0u8, p.1, 0u8, 255u8)
    } else {
        (0u8, 0u8, p.2, 255u8)
    }
}

/// The spread raster: three times as wide and three times as high as its source.
pub open spec fn spread(source: Raster<Rgb>) -> Raster<Rgba> {
    Raster::from_fn(
        3 * source.width,
        3 * source.height,
        |x: int, y: int| spread_pixel(source, x, y),
    )
}

/// Whether the spread raster of a raster of the given extent can be made on
/// this machine: its extent fits the coordinates of an image and its samples
/// fit a vector.
pub open spec fn spread_fits(width: nat, height: nat) -> bool {
    &&& 3 * width <= u32::MAX
    &&& 3 * height <= u32::MAX
    &&& 4 * (3 * width) * (3 * height) <= isize::MAX
}

/// Whether a raster of the given extent can be enlarged and blurred on this
/// machine: the enlarged extent fits the coordinates of an image, and the
/// buffers that enlarging and blurring work in fit a vector.
pub open spec fn soften_fits(width: nat, height: nat) -> bool {
    &&& 3 * width <= u32::MAX
    &&& 3 * height <= u32::MAX
    &&& 1024 * (3 * width) * (3 * height) <= isize::MAX
}

/// Whether the preview of a raster of the given extent can be made on this
/// machine: the raster can be spread, and the spread raster can be enlarged
/// and blurred.
pub open spec fn simulation_fits(width: nat, height: nat) -> bool {
    spread_fits(width, height) && soften_fits(3 * width, 3 * height)
}

/// Whether the preview of a raster of the given extent can be made on this machine.
pub fn can_simulate(width: u32, height: u32) -> (b: bool)
    ensures
        b == simulation_fits(width as nat, height as nat),
{
    let w: u128 = width as u128;
    let h: u128 = height as u128;
    assert(1024 * (3 * (3 * w)) * (3 * (3 * h)) == 82944 * (w * h) && 4 * (3 * w) * (3 * h) == 36
        * (w * h)) by (nonlinear_arith);
    assert(0 <= w * h <= 0xFFFF_FFFF * 0xFFFF_FFFF) by (nonlinear_arith)
        requires
            0 <= w <= 0xFFFF_FFFF,
            0 <= h <= 0xFFFF_FFFF,
    ;
    9 * w <= u32::MAX as u128 && 9 * h <= u32::MAX as u128 && 82944 * (w * h) <= isize::MAX as u128
}

/// Spreads every pixel of an image over its three subpixel slots.
pub fn spread_subpixels(img: &RgbImage) -> (out: RgbaImage)
    requires
        spread_fits(img@.width, img@.height),
    ensures
        out@ == spread(img@),
{
    let (width, height) = img.dimensions();
    let mut out = RgbaImage::new(SUBPIXELS * width, SUBPIXELS * height);
    let mut y: u32 = 0;
    while y < height
        invariant
            y <= height,
            img@.width == width,
            img@.height == height,
            3 * width <= u32::MAX,
            3 * height <= u32::MAX,
            out@.well_formed(),
            out@.width == 3 * width,
            out@.height == 3 * height,
            forall|px: int, py: int|
                0 <= px < 3 * width && 0 <= py < 3 * height ==> #[trigger] out@.at(px, py) == if py
                    / 3 < y {
                    spread_pixel(img@, px, py)
                } else {
                    transparent()
                },
        decreases height - y,
    {
        let mut x: u32 = 0;
        while x < width
            invariant
                x <= width,
                y < height,
                img@.width == width,
                img@.height == height,
                3 * width <= u32::MAX,
                3 * height <= u32::MAX,
                out@.well_formed(),
                out@.width == 3 * width,
                out@.height == 3 * height,
                forall|px: int, py: int|
                    0 <= px < 3 * width && 0 <= py < 3 * height ==> #[trigger] out@.at(px, py)
                        == if py / 3 < y || (py / 3 == y && px / 3 < x) {
                        spread_pixel(img@, px, py)
                    } else {
                        transparent()
                    },
            decreases width - x,
        {
            let p = img.get_pixel(x, y);
            let sx: u32 = SUBPIXELS * x;
            let sy: u32 = SUBPIXELS * y;
            out.put_pixel(sx, sy, (p.0, 0, 0, 255));
            out.put_pixel(sx + 1, sy, (0, p.1, 0, 255));
            out.put_pixel(sx + 2, sy, (0, 0, p.2, 255));
            x = x + 1;
        }
        y = y + 1;
    }
    proof {
        lemma_rasters_equal(out@, spread(img@));
    }
    out
}

/// Enlarges a raster threefold with a three-lobed Lanczos filter and blurs
/// the result with a standard deviation of one pixel. Both are done by the
/// `image` crate; which colours come out depends on the floating-point
/// arithmetic of the platform, so only the extent of the result is stated.
/// A raster without pixels is enlarged to a raster without pixels and not
/// blurred.
pub fn soften(slots: &RgbaImage) -> (out: RgbaImage)
    requires
        soften_fits(slots@.width, slots@.height),
    ensures
        out@.width == 3 * slots@.width,
        out@.height == 3 * slots@.height,
{
    let (width, height) = slots.dimensions();
    assert(16 * width * (3 * height) <= 1024 * (3 * width) * (3 * height) && 4 * (3 * width) * (3
        * height) <= 1024 * (3 * width) * (3 * height)) by (nonlinear_arith)
        requires
            0 <= width,
            0 <= height,
    ;
    let enlarged = slots.resize(UPSCALE * width, UPSCALE * height, FilterType::Lanczos3);
    if width == 0 || height == 0 {
        enlarged
    } else {
        enlarged.blur(BLUR_SIGMA)
    }
}

/// Renders the subpixel preview of an image: the image is spread over its
/// subpixel slots, and the spread raster is enlarged and blurred. The
/// preview is nine times as wide and nine times as high as the image.
pub fn simulate_subpixel(img: &RgbImage) -> (out: RgbaImage)
    requires
        simulation_fits(img@.width, img@.height),
    ensures
        out@.width == 9 * img@.width,
        out@.height == 9 * img@.height,
{
    let slots = spread_subpixels(img);
    soften(&slots)
}

/// The three rasters that single-character mode produces.
pub struct GlyphRender {
    /// The glyph cell as the sheet holds it.
    pub original: RgbImage,
    /// The packed glyph.
    pub processed: RgbImage,
    /// The subpixel preview of the packed glyph.
    pub simulated: RgbaImage,
}

/// Renders one character: its glyph, its packed glyph and the preview of the
/// packed glyph. A character that is no Hangul syllable renders nothing.
pub fn process_single_char(img: &RgbImage, hangul: char) -> (r: Option<GlyphRender>)
    requires
        glyph_available(img@, hangul),
    ensures
        r is Some <==> is_hangul_syllable(hangul),
        r matches Some(render) ==> {
            &&& render.original@ == glyph_original(img@, glyph_cell(hangul)->0)
            &&& render.processed@ == glyph_packed(img@, glyph_cell(hangul)->0)
            &&& render.simulated@.width == PREVIEW_SCALE * PACKED_WIDTH
            &&& render.simulated@.height == PREVIEW_SCALE * CELL_SIZE
        },
{
    match extract_hangul_image(img, hangul) {
        None => None,
        Some((original, processed)) => {
            proof {
                lemma_glyph_packed_extent(img@, glyph_cell(hangul)->0);
                assert(4 * (3 * 4) * (3 * 12) == 1728 && 1024 * (3 * (3 * 4)) * (3 * (3 * 12))
                    == 3981312) by (nonlinear_arith);
            }
            let simulated = simulate_subpixel(&processed);
            Some(GlyphRender { original, processed, simulated })
        },
    }
}

} // verus!
