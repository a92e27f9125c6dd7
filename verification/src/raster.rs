//! Rasters: the mathematical model of a pixel grid, in which the contracts
//! of the library say what an image holds.

use vstd::arithmetic::div_mod::{
    lemma_div_pos_is_pos, lemma_fundamental_div_mod, lemma_mod_pos_bound,
    lemma_multiply_divide_lt,
};
use vstd::arithmetic::mul::lemma_mul_is_commutative;
use vstd::prelude::*;

verus! {

/// Red, green and blue intensity of one pixel.
pub type Rgb = (u8, u8, u8);

/// Red, green, blue and alpha of one pixel.
pub type Rgba = (u8, u8, u8, u8);

/// The colour of every pixel of a freshly made RGB image.
pub open spec fn black() -> Rgb {
    (0u8, 0u8, 0u8)
}

/// The colour of every pixel of a freshly made RGBA image.
pub open spec fn transparent() -> Rgba {
    (0u8, 0u8, 0u8, 0u8)
}

/// A raster as a mathematical value: its extent and the colour of every pixel
/// inside it.
#[verifier::ext_equal]
pub struct Raster<P> {
    pub width: nat,
    pub height: nat,
    pub pixels: Map<(int, int), P>,
}

impl<P> Raster<P> {
    /// Whether `(x, y)` is a pixel of a raster of the given extent.
    pub open spec fn within(width: nat, height: nat, x: int, y: int) -> bool {
        0 <= x < width && 0 <= y < height
    }

    /// The raster of the given extent whose pixel at `(x, y)` is `f(x, y)`.
    pub open spec fn from_fn(width: nat, height: nat, f: spec_fn(int, int) -> P) -> Raster<P> {
        Raster {
            width,
            height,
            pixels: Map::new(
                |p: (int, int)| Self::within(width, height, p.0, p.1),
                |p: (int, int)| f(p.0, p.1),
            ),
        }
    }

    /// Whether `(x, y)` is a pixel of this raster.
    pub open spec fn contains(self, x: int, y: int) -> bool {
        Self::within(self.width, self.height, x, y)
    }

    /// The colour at `(x, y)`.
    pub open spec fn at(self, x: int, y: int) -> P {
        self.pixels[(x, y)]
    }

    /// Whether the raster has a colour for exactly the pixels inside its
    /// extent. Two such rasters are equal when they agree in extent and in
    /// the colour of every pixel. The rasters that [`Raster::from_fn`] makes
    /// are of this kind, and so is what every image holds.
    pub open spec fn well_formed(self) -> bool {
        forall|p: (int, int)| self.pixels.dom().contains(p) <==> self.contains(p.0, p.1)
    }

    /// The raster of uniform colour.
    pub open spec fn filled(width: nat, height: nat, colour: P) -> Raster<P> {
        Self::from_fn(width, height, |x: int, y: int| colour)
    }

    /// This raster with the colour at `(x, y)` replaced.
    pub open spec fn with_pixel(self, x: int, y: int, colour: P) -> Raster<P> {
        Self::from_fn(
            self.width,
            self.height,
            |px: int, py: int|
                if px == x && py == y {
                    colour
                } else {
                    self.at(px, py)
                },
        )
    }

    /// The `width` by `height` window of this raster whose top left corner is
    /// at `(x0, y0)`.
    pub open spec fn crop(self, x0: int, y0: int, width: nat, height: nat) -> Raster<P> {
        Self::from_fn(width, height, |x: int, y: int| self.at(x0 + x, y0 + y))
    }

    /// Whether the `width` by `height` window at `(x0, y0)` lies inside this raster.
    pub open spec fn covers(self, x0: int, y0: int, width: nat, height: nat) -> bool {
        0 <= x0 && 0 <= y0 && x0 + width <= self.width && y0 + height <= self.height
    }

    /// This raster with `top` drawn over it, the top left corner of `top` at
    /// `(x0, y0)`.
    pub open spec fn overlay(self, top: Raster<P>, x0: int, y0: int) -> Raster<P> {
        Self::from_fn(
            self.width,
            self.height,
            |x: int, y: int|
                if top.contains(x - x0, y - y0) {
                    top.at(x - x0, y - y0)
                } else {
                    self.at(x, y)
                },
        )
    }
}

/// Two well-formed rasters are equal if they agree in extent and in the
/// colour of every pixel.
pub proof fn lemma_rasters_equal<P>(a: Raster<P>, b: Raster<P>)
    requires
        a.well_formed(),
        b.well_formed(),
        a.width == b.width,
        a.height == b.height,
        forall|x: int, y: int| a.contains(x, y) ==> #[trigger] a.at(x, y) == b.at(x, y),
    ensures
        a == b,
{
    assert forall|p: (int, int)| a.pixels.dom().contains(p) implies #[trigger] a.pixels[p]
        == b.pixels[p] by {
        assert(a.at(p.0, p.1) == b.at(p.0, p.1));
    }
}

/// Position of pixel `(x, y)` in row-major order in a raster `width` pixels wide.
pub open spec fn row_major(width: nat, x: int, y: int) -> int {
    y * width + x
}

/// Whether `samples` lists the channels of `raster` pixel by pixel, rows from
/// top to bottom and each row from left to right, three bytes per pixel.
pub open spec fn is_rgb_samples(raster: Raster<Rgb>, samples: Seq<u8>) -> bool {
    &&& samples.len() == 3 * raster.width * raster.height
    &&& forall|x: int, y: int|
        raster.contains(x, y) ==> {
            let k = #[trigger] row_major(raster.width, x, y);
            raster.at(x, y) == (samples[3 * k], samples[3 * k + 1], samples[3 * k + 2])
        }
}

/// Whether `samples` lists the channels of `raster` pixel by pixel, rows from
/// top to bottom and each row from left to right, four bytes per pixel.
pub open spec fn is_rgba_samples(raster: Raster<Rgba>, samples: Seq<u8>) -> bool {
    &&& samples.len() == 4 * raster.width * raster.height
    &&& forall|x: int, y: int|
        raster.contains(x, y) ==> {
            let k = #[trigger] row_major(raster.width, x, y);
            raster.at(x, y) == (
                samples[4 * k],
                samples[4 * k + 1],
                samples[4 * k + 2],
                samples[4 * k + 3],
            )
        }
}

/// Every pixel of a raster has its place in row-major order before the end
/// of the raster.
pub proof fn lemma_row_major_bounds(width: nat, height: nat, x: int, y: int)
    requires
        0 <= x < width,
        0 <= y < height,
    ensures
        0 <= row_major(width, x, y) < width * height,
{
    assert(y * width + x < width * height) by (nonlinear_arith)
        requires
            0 <= x < width,
            0 <= y < height,
    ;
    assert(0 <= y * width) by (nonlinear_arith)
        requires
            0 <= y,
    ;
}

/// Row-major order runs through the rows from top to bottom and through each
/// row from left to right.
pub proof fn lemma_row_major_order(width: nat, x1: int, y1: int, x2: int, y2: int)
    requires
        0 <= x1 < width,
        0 <= x2 < width,
        0 <= y1,
        y1 < y2 || (y1 == y2 && x1 < x2),
    ensures
        0 <= row_major(width, x1, y1) < row_major(width, x2, y2),
{
    assert(0 <= y1 * width) by (nonlinear_arith)
        requires
            0 <= y1,
    ;
    if y1 < y2 {
        assert(y1 * width + width <= y2 * width) by (nonlinear_arith)
            requires
                y1 + 1 <= y2,
        ;
    }
}

/// Every place in row-major order before the end of a raster is the place
/// of one of its pixels.
pub proof fn lemma_row_major_covers(width: nat, height: nat, k: int)
    requires
        0 <= k < width * height,
    ensures
        0 <= k % (width as int) < width,
        0 <= k / (width as int) < height,
        row_major(width, k % (width as int), k / (width as int)) == k,
{
    assert(width > 0) by (nonlinear_arith)
        requires
            0 <= k < width * height,
    ;
    lemma_fundamental_div_mod(k, width as int);
    lemma_mod_pos_bound(k, width as int);
    lemma_div_pos_is_pos(k, width as int);
    lemma_multiply_divide_lt(k, width as int, height as int);
    lemma_mul_is_commutative(width as int, k / (width as int));
}

/// A raster has one list of RGB samples only.
pub proof fn lemma_rgb_samples_unique(raster: Raster<Rgb>, a: Seq<u8>, b: Seq<u8>)
    requires
        is_rgb_samples(raster, a),
        is_rgb_samples(raster, b),
    ensures
        a == b,
{
    assert forall|i: int| 0 <= i < a.len() implies a[i] == b[i] by {
        let k = i / 3;
        assert(3 * raster.width * raster.height == 3 * (raster.width * raster.height))
            by (nonlinear_arith);
        lemma_row_major_covers(raster.width, raster.height, k);
        let x = k % (raster.width as int);
        let y = k / (raster.width as int);
        assert(raster.contains(x, y) && row_major(raster.width, x, y) == k);
    }
}

/// A raster has one list of RGBA samples only.
pub proof fn lemma_rgba_samples_unique(raster: Raster<Rgba>, a: Seq<u8>, b: Seq<u8>)
    requires
        is_rgba_samples(raster, a),
        is_rgba_samples(raster, b),
    ensures
        a == b,
{
    assert forall|i: int| 0 <= i < a.len() implies a[i] == b[i] by {
        let k = i / 4;
        assert(4 * raster.width * raster.height == 4 * (raster.width * raster.height))
            by (nonlinear_arith);
        lemma_row_major_covers(raster.width, raster.height, k);
        let x = k % (raster.width as int);
        let y = k / (raster.width as int);
        assert(raster.contains(x, y) && row_major(raster.width, x, y) == k);
    }
}

/// A list of RGB samples belongs to one well-formed raster of a given extent only.
pub proof fn lemma_rgb_raster_unique(a: Raster<Rgb>, b: Raster<Rgb>, samples: Seq<u8>)
    requires
        a.well_formed(),
        b.well_formed(),
        a.width == b.width,
        a.height == b.height,
        is_rgb_samples(a, samples),
        is_rgb_samples(b, samples),
    ensures
        a == b,
{
    assert forall|x: int, y: int| a.contains(x, y) implies #[trigger] a.at(x, y) == b.at(x, y) by {
        let k = row_major(a.width, x, y);
        assert(a.at(x, y) == (samples[3 * k], samples[3 * k + 1], samples[3 * k + 2]));
        assert(b.contains(x, y) && k == row_major(b.width, x, y));
    }
    lemma_rasters_equal(a, b);
}

} // verus!
