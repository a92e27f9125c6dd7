//! Images: the two types that hold pixels at run time, and the boundary to
//! the `image` crate that stores and resamples them.

use crate::raster::{
    black, is_rgb_samples, is_rgba_samples, lemma_row_major_bounds, lemma_row_major_order,
    row_major, transparent, Raster, Rgb, Rgba,
};
use image::imageops::FilterType;
use vstd::prelude::*;

verus! {

/// The pixel store of an RGB image: an `image::RgbImage`, into which Verus
/// does not look. What it holds is named by [`rgb_width`], [`rgb_height`]
/// and [`rgb_pixels`]; the private functions of this module that reach into
/// it state, over those names, what the `image` crate does.
#[verifier::external_body]
pub struct RgbBuffer {
    inner: image::RgbImage,
}

/// The pixel store of an RGBA image: an `image::RgbaImage`, held in the same
/// way as in [`RgbBuffer`], under the names [`rgba_width`], [`rgba_height`]
/// and [`rgba_pixels`].
#[verifier::external_body]
pub struct RgbaBuffer {
    inner: image::RgbaImage,
}

/// The resampling filters of `image::imageops`, declared with their
/// variants, so that verified code names the filter it asks for.
#[verifier::external_type_specification]
pub struct ExFilterType(FilterType);

/// Width in pixels of the `image::RgbImage` in the buffer.
pub uninterp spec fn rgb_width(buffer: RgbBuffer) -> nat;

/// Height in pixels of the `image::RgbImage` in the buffer.
pub uninterp spec fn rgb_height(buffer: RgbBuffer) -> nat;

/// The pixels of the `image::RgbImage` in the buffer, by column and row.
pub uninterp spec fn rgb_pixels(buffer: RgbBuffer) -> Map<(int, int), (u8, u8, u8)>;

/// Width in pixels of the `image::RgbaImage` in the buffer.
pub uninterp spec fn rgba_width(buffer: RgbaBuffer) -> nat;

/// Height in pixels of the `image::RgbaImage` in the buffer.
pub uninterp spec fn rgba_height(buffer: RgbaBuffer) -> nat;

/// The pixels of the `image::RgbaImage` in the buffer, by column and row.
pub uninterp spec fn rgba_pixels(buffer: RgbaBuffer) -> Map<(int, int), (u8, u8, u8, u8)>;

/// `ImageBuffer::new` for RGB: an image of the given size with every channel
/// of every pixel zero. The crate panics where the sample count does not fit
/// a vector; the precondition leaves those sizes out.
#[verifier::external_body]
fn rgb_new(width: u32, height: u32) -> (buffer: RgbBuffer)
    requires
        3 * width * height <= isize::MAX,
    ensures
        rgb_width(buffer) == width,
        rgb_height(buffer) == height,
        forall|x: int, y: int|
            0 <= x < width && 0 <= y < height ==> #[trigger] rgb_pixels(buffer)[(x, y)] == black(),
{
    RgbBuffer { inner: image::RgbImage::new(width, height) }
}

/// `ImageBuffer::dimensions` for RGB: the width and height that the image
/// was made with.
#[verifier::external_body]
fn rgb_dimensions(buffer: &RgbBuffer) -> (size: (u32, u32))
    ensures
        size.0 == rgb_width(*buffer),
        size.1 == rgb_height(*buffer),
{
    buffer.inner.dimensions()
}

/// `ImageBuffer::get_pixel` for RGB: the pixel at column `x` of row `y`. The
/// crate panics outside the image; the precondition leaves that out.
#[verifier::external_body]
fn rgb_get_pixel(buffer: &RgbBuffer, x: u32, y: u32) -> (p: Rgb)
    requires
        x < rgb_width(*buffer),
        y < rgb_height(*buffer),
    ensures
        p == rgb_pixels(*buffer)[(x as int, y as int)],
{
    let p = buffer.inner.get_pixel(x, y).0;
    (p[0], p[1], p[2])
}

/// `ImageBuffer::put_pixel` for RGB: replaces the pixel at column `x` of row
/// `y` and nothing else. The crate panics outside the image; the
/// precondition leaves that out.
#[verifier::external_body]
fn rgb_put_pixel(buffer: &mut RgbBuffer, x: u32, y: u32, p: Rgb)
    requires
        x < rgb_width(*old(buffer)),
        y < rgb_height(*old(buffer)),
    ensures
        rgb_width(*final(buffer)) == rgb_width(*old(buffer)),
        rgb_height(*final(buffer)) == rgb_height(*old(buffer)),
        rgb_pixels(*final(buffer)) == rgb_pixels(*old(buffer)).insert((x as int, y as int), p),
    no_unwind
{
    buffer.inner.put_pixel(x, y, image::Rgb([p.0, p.1, p.2]))
}

/// `ImageBuffer::new` for RGBA: an image of the given size with every channel
/// of every pixel zero. The crate panics where the sample count does not fit
/// a vector; the precondition leaves those sizes out.
#[verifier::external_body]
fn rgba_new(width: u32, height: u32) -> (buffer: RgbaBuffer)
    requires
        4 * width * height <= isize::MAX,
    ensures
        rgba_width(buffer) == width,
        rgba_height(buffer) == height,
        forall|x: int, y: int|
            0 <= x < width && 0 <= y < height ==> #[trigger] rgba_pixels(buffer)[(x, y)]
                == transparent(),
{
    RgbaBuffer { inner: image::RgbaImage::new(width, height) }
}

/// `ImageBuffer::dimensions` for RGBA: the width and height that the image
/// was made with.
#[verifier::external_body]
fn rgba_dimensions(buffer: &RgbaBuffer) -> (size: (u32, u32))
    ensures
        size.0 == rgba_width(*buffer),
        size.1 == rgba_height(*buffer),
{
    buffer.inner.dimensions()
}

/// `ImageBuffer::get_pixel` for RGBA: the pixel at column `x` of row `y`. The
/// crate panics outside the image; the precondition leaves that out.
#[verifier::external_body]
fn rgba_get_pixel(buffer: &RgbaBuffer, x: u32, y: u32) -> (p: Rgba)
    requires
        x < rgba_width(*buffer),
        y < rgba_height(*buffer),
    ensures
        p == rgba_pixels(*buffer)[(x as int, y as int)],
{
    let p = buffer.inner.get_pixel(x, y).0;
    (p[0], p[1], p[2], p[3])
}

/// `ImageBuffer::put_pixel` for RGBA: replaces the pixel at column `x` of row
/// `y` and nothing else. The crate panics outside the image; the
/// precondition leaves that out.
#[verifier::external_body]
fn rgba_put_pixel(buffer: &mut RgbaBuffer, x: u32, y: u32, p: Rgba)
    requires
        x < rgba_width(*old(buffer)),
        y < rgba_height(*old(buffer)),
    ensures
        rgba_width(*final(buffer)) == rgba_width(*old(buffer)),
        rgba_height(*final(buffer)) == rgba_height(*old(buffer)),
        rgba_pixels(*final(buffer)) == rgba_pixels(*old(buffer)).insert((x as int, y as int), p),
    no_unwind
{
    buffer.inner.put_pixel(x, y, image::Rgba([p.0, p.1, p.2, p.3]))
}

/// `image::imageops::resize`: a new image of exactly the requested size,
/// resampled from the buffer with `filter`. The colours are computed in
/// floating point, the weights of the Lanczos filter with `f32::sin`, whose
/// precision std leaves to the platform; so they are no function of the
/// arguments alone, and nothing is stated of them. The crate allocates an
/// intermediate of four 32-bit samples per pixel, as wide as the buffer and
/// as high as the result, and then the result; the preconditions keep both
/// within the size of a vector.
#[verifier::external_body]
fn rgba_resize(buffer: &RgbaBuffer, width: u32, height: u32, filter: FilterType) -> (out:
    RgbaBuffer)
    requires
        16 * rgba_width(*buffer) * height <= isize::MAX,
        4 * width * height <= isize::MAX,
    ensures
        rgba_width(out) == width,
        rgba_height(out) == height,
{
    RgbaBuffer { inner: image::imageops::resize(&buffer.inner, width, height, filter) }
}

/// `image::imageops::blur`: a Gaussian blur of the buffer with a standard
/// deviation of `sigma` pixels; the result has the size of the buffer. The
/// colours are computed in floating point, the weights with `f32::exp`,
/// whose precision std leaves to the platform; so they are no function of
/// the arguments alone, and nothing is stated of them. The crate panics on
/// an image without pixels. It works in buffers of 32-bit samples: two of
/// the size of the image, one row with padding and, for `sigma` up to eight,
/// a ring of at most 51 rows; the last precondition bounds each of them.
#[verifier::external_body]
fn rgba_blur(buffer: &RgbaBuffer, sigma: u8) -> (out: RgbaBuffer)
    requires
        0 < rgba_width(*buffer),
        0 < rgba_height(*buffer),
        1 <= sigma <= 8,
        1024 * rgba_width(*buffer) * rgba_height(*buffer) <= isize::MAX,
    ensures
        rgba_width(out) == rgba_width(*buffer),
        rgba_height(out) == rgba_height(*buffer),
{
    RgbaBuffer { inner: image::imageops::blur(&buffer.inner, sigma.into()) }
}

/// An 8-bit RGB image. Its value is the raster of its pixels.
pub struct RgbImage {
    buffer: RgbBuffer,
}

/// An 8-bit RGBA image. Its value is the raster of its pixels.
pub struct RgbaImage {
    buffer: RgbaBuffer,
}

impl View for RgbImage {
    type V = Raster<Rgb>;

    closed spec fn view(&self) -> Raster<Rgb> {
        Raster::from_fn(
            rgb_width(self.buffer),
            rgb_height(self.buffer),
            |x: int, y: int| rgb_pixels(self.buffer)[(x, y)],
        )
    }
}

impl View for RgbaImage {
    type V = Raster<Rgba>;

    closed spec fn view(&self) -> Raster<Rgba> {
        Raster::from_fn(
            rgba_width(self.buffer),
            rgba_height(self.buffer),
            |x: int, y: int| rgba_pixels(self.buffer)[(x, y)],
        )
    }
}

impl RgbImage {
    /// The samples of every image fit a vector.
    #[verifier::type_invariant]
    spec fn samples_fit(self) -> bool {
        3 * rgb_width(self.buffer) * rgb_height(self.buffer) <= isize::MAX
    }

    /// What an image holds is a well-formed raster.
    pub proof fn lemma_well_formed(self)
        ensures
            self@.well_formed(),
    {
    }

    /// A black image of the given size.
    pub fn new(width: u32, height: u32) -> (img: RgbImage)
        requires
            3 * width * height <= isize::MAX,
        ensures
            img@ == Raster::filled(width as nat, height as nat, black()),
    {
        RgbImage { buffer: rgb_new(width, height) }
    }

    /// Width and height of the image in pixels. The samples of an image,
    /// three bytes per pixel, fit a vector.
    pub fn dimensions(&self) -> (size: (u32, u32))
        ensures
            size.0 == self@.width,
            size.1 == self@.height,
            3 * size.0 * size.1 <= isize::MAX,
    {
        proof {
            use_type_invariant(self);
        }
        rgb_dimensions(&self.buffer)
    }

    /// Width of the image in pixels.
    pub fn width(&self) -> (w: u32)
        ensures
            w == self@.width,
    {
        rgb_dimensions(&self.buffer).0
    }

    /// Height of the image in pixels.
    pub fn height(&self) -> (h: u32)
        ensures
            h == self@.height,
    {
        rgb_dimensions(&self.buffer).1
    }

    /// The pixel at column `x` of row `y`.
    pub fn get_pixel(&self, x: u32, y: u32) -> (p: Rgb)
        requires
            self@.contains(x as int, y as int),
        ensures
            p == self@.at(x as int, y as int),
    {
        rgb_get_pixel(&self.buffer, x, y)
    }

    /// The pixel at column `x` of row `y`, if the image has one there.
    pub fn get_pixel_checked(&self, x: u32, y: u32) -> (p: Option<Rgb>)
        ensures
            p == if self@.contains(x as int, y as int) {
                Some(self@.at(x as int, y as int))
            } else {
                None
            },
    {
        let (width, height) = rgb_dimensions(&self.buffer);
        if x < width && y < height {
            Some(rgb_get_pixel(&self.buffer, x, y))
        } else {
            None
        }
    }

    /// Replaces the pixel at column `x` of row `y`.
    pub fn put_pixel(&mut self, x: u32, y: u32, p: Rgb)
        requires
            old(self)@.contains(x as int, y as int),
        ensures
            final(self)@ == old(self)@.with_pixel(x as int, y as int, p),
    {
        proof {
            use_type_invariant(&*self);
        }
        rgb_put_pixel(&mut self.buffer, x, y, p);
    }

    /// Builds the image of the given size from its samples in row-major
    /// order, three bytes per pixel. There is an image exactly when the
    /// number of samples is the one that the size asks for.
    pub fn from_samples(width: u32, height: u32, samples: &[u8]) -> (r: Option<RgbImage>)
        ensures
            r is Some <==> samples@.len() == 3 * width * height && 3 * width * height
                <= isize::MAX,
            r matches Some(img) ==> img@.width == width && img@.height == height
                && is_rgb_samples(img@, samples@),
    {
        assert(width * height <= 0xFFFF_FFFF * 0xFFFF_FFFF) by (nonlinear_arith)
            requires
                width <= 0xFFFF_FFFF,
                height <= 0xFFFF_FFFF,
        ;
        let area: u64 = width as u64 * height as u64;
        assert(3 * width * height == 3 * (width * height)) by (nonlinear_arith);
        if area > (isize::MAX as u64) / 3 || samples.len() as u64 != 3 * area {
            return None;
        }
        let mut img = RgbImage::new(width, height);
        let mut k: usize = 0;
        let mut y: u32 = 0;
        while y < height
            invariant
                y <= height,
                img@.width == width,
                img@.height == height,
                samples@.len() == 3 * (width * height),
                k == 3 * row_major(width as nat, 0, y as int),
                forall|px: int, py: int|
                    0 <= px < width && 0 <= py < y ==> {
                        let j = #[trigger] row_major(width as nat, px, py);
                        img@.at(px, py) == (samples@[3 * j], samples@[3 * j + 1], samples@[3 * j + 2])
                    },
            decreases height - y,
        {
            let mut x: u32 = 0;
            while x < width
                invariant
                    x <= width,
                    y < height,
                    img@.width == width,
                    img@.height == height,
                    samples@.len() == 3 * (width * height),
                    k == 3 * row_major(width as nat, x as int, y as int),
                    forall|px: int, py: int|
                        0 <= px < width && (0 <= py < y || (py == y && px < x)) ==> {
                            let j = #[trigger] row_major(width as nat, px, py);
                            img@.at(px, py) == (
                                samples@[3 * j],
                                samples@[3 * j + 1],
                                samples@[3 * j + 2],
                            )
                        },
                decreases width - x,
            {
                proof {
                    lemma_row_major_bounds(width as nat, height as nat, x as int, y as int);
                }
                let p = (samples[k], samples[k + 1], samples[k + 2]);
                img.put_pixel(x, y, p);
                k = k + 3;
                x = x + 1;
            }
            assert(row_major(width as nat, width as int, y as int) == row_major(
                width as nat,
                0,
                y + 1,
            )) by (nonlinear_arith);
            y = y + 1;
        }
        Some(img)
    }

    /// The samples of the image in row-major order, three bytes per pixel.
    pub fn to_samples(&self) -> (samples: Vec<u8>)
        ensures
            is_rgb_samples(self@, samples@),
    {
        let (width, height) = self.dimensions();
        let mut samples: Vec<u8> = Vec::new();
        let mut y: u32 = 0;
        while y < height
            invariant
                y <= height,
                self@.width == width,
                self@.height == height,
                samples@.len() == 3 * row_major(width as nat, 0, y as int),
                forall|px: int, py: int|
                    0 <= px < width && 0 <= py < y ==> {
                        let j = #[trigger] row_major(width as nat, px, py);
                        self@.at(px, py) == (
                            samples@[3 * j],
                            samples@[3 * j + 1],
                            samples@[3 * j + 2],
                        )
                    },
            decreases height - y,
        {
            let mut x: u32 = 0;
            while x < width
                invariant
                    x <= width,
                    y < height,
                    self@.width == width,
                    self@.height == height,
                    samples@.len() == 3 * row_major(width as nat, x as int, y as int),
                    forall|px: int, py: int|
                        0 <= px < width && (0 <= py < y || (py == y && px < x)) ==> {
                            let j = #[trigger] row_major(width as nat, px, py);
                            self@.at(px, py) == (
                                samples@[3 * j],
                                samples@[3 * j + 1],
                                samples@[3 * j + 2],
                            )
                        },
                decreases width - x,
            {
                let p = self.get_pixel(x, y);
                samples.push(p.0);
                samples.push(p.1);
                samples.push(p.2);
                proof {
                    assert forall|px: int, py: int|
                        0 <= px < width && (0 <= py < y || (py == y && px < x + 1)) implies {
                        let j = #[trigger] row_major(width as nat, px, py);
                        self@.at(px, py) == (
                            samples@[3 * j],
                            samples@[3 * j + 1],
                            samples@[3 * j + 2],
                        )
                    } by {
                        if !(py == y && px == x) {
                            lemma_row_major_order(width as nat, px, py, x as int, y as int);
                        }
                    }
                }
                x = x + 1;
            }
            assert(row_major(width as nat, width as int, y as int) == row_major(
                width as nat,
                0,
                y + 1,
            )) by (nonlinear_arith);
            y = y + 1;
        }
        assert(3 * (width * height) == 3 * width * height) by (nonlinear_arith);
        samples
    }
}

impl RgbaImage {
    /// The samples of every image fit a vector.
    #[verifier::type_invariant]
    spec fn samples_fit(self) -> bool {
        4 * rgba_width(self.buffer) * rgba_height(self.buffer) <= isize::MAX
    }

    /// What an image holds is a well-formed raster.
    pub proof fn lemma_well_formed(self)
        ensures
            self@.well_formed(),
    {
    }

    /// A transparent black image of the given size.
    pub fn new(width: u32, height: u32) -> (img: RgbaImage)
        requires
            4 * width * height <= isize::MAX,
        ensures
            img@ == Raster::filled(width as nat, height as nat, transparent()),
    {
        RgbaImage { buffer: rgba_new(width, height) }
    }

    /// Width and height of the image in pixels. The samples of an image,
    /// four bytes per pixel, fit a vector.
    pub fn dimensions(&self) -> (size: (u32, u32))
        ensures
            size.0 == self@.width,
            size.1 == self@.height,
            4 * size.0 * size.1 <= isize::MAX,
    {
        proof {
            use_type_invariant(self);
        }
        rgba_dimensions(&self.buffer)
    }

    /// Width of the image in pixels.
    pub fn width(&self) -> (w: u32)
        ensures
            w == self@.width,
    {
        rgba_dimensions(&self.buffer).0
    }

    /// Height of the image in pixels.
    pub fn height(&self) -> (h: u32)
        ensures
            h == self@.height,
    {
        rgba_dimensions(&self.buffer).1
    }

    /// The pixel at column `x` of row `y`.
    pub fn get_pixel(&self, x: u32, y: u32) -> (p: Rgba)
        requires
            self@.contains(x as int, y as int),
        ensures
            p == self@.at(x as int, y as int),
    {
        rgba_get_pixel(&self.buffer, x, y)
    }

    /// The pixel at column `x` of row `y`, if the image has one there.
    pub fn get_pixel_checked(&self, x: u32, y: u32) -> (p: Option<Rgba>)
        ensures
            p == if self@.contains(x as int, y as int) {
                Some(self@.at(x as int, y as int))
            } else {
                None
            },
    {
        let (width, height) = rgba_dimensions(&self.buffer);
        if x < width && y < height {
            Some(rgba_get_pixel(&self.buffer, x, y))
        } else {
            None
        }
    }

    /// Replaces the pixel at column `x` of row `y`.
    pub fn put_pixel(&mut self, x: u32, y: u32, p: Rgba)
        requires
            old(self)@.contains(x as int, y as int),
        ensures
            final(self)@ == old(self)@.with_pixel(x as int, y as int, p),
    {
        proof {
            use_type_invariant(&*self);
        }
        rgba_put_pixel(&mut self.buffer, x, y, p);
    }

    /// The image resampled to the given size by the `image` crate. Which
    /// colours come out depends on the floating-point arithmetic of the
    /// platform and is not stated.
    pub(crate) fn resize(&self, width: u32, height: u32, filter: FilterType) -> (out: RgbaImage)
        requires
            16 * self@.width * height <= isize::MAX,
            4 * width * height <= isize::MAX,
        ensures
            out@.width == width,
            out@.height == height,
    {
        RgbaImage { buffer: rgba_resize(&self.buffer, width, height, filter) }
    }

    /// The image blurred by the `image` crate with a Gaussian of the given
    /// standard deviation in pixels. Which colours come out depends on the
    /// floating-point arithmetic of the platform and is not stated.
    pub(crate) fn blur(&self, sigma: u8) -> (out: RgbaImage)
        requires
            0 < self@.width,
            0 < self@.height,
            1 <= sigma <= 8,
            1024 * self@.width * self@.height <= isize::MAX,
        ensures
            out@.width == self@.width,
            out@.height == self@.height,
    {
        proof {
            use_type_invariant(self);
        }
        RgbaImage { buffer: rgba_blur(&self.buffer, sigma) }
    }

    /// The samples of the image in row-major order, four bytes per pixel.
    pub fn to_samples(&self) -> (samples: Vec<u8>)
        ensures
            is_rgba_samples(self@, samples@),
    {
        let (width, height) = self.dimensions();
        let mut samples: Vec<u8> = Vec::new();
        let mut y: u32 = 0;
        while y < height
            invariant
                y <= height,
                self@.width == width,
                self@.height == height,
                samples@.len() == 4 * row_major(width as nat, 0, y as int),
                forall|px: int, py: int|
                    0 <= px < width && 0 <= py < y ==> {
                        let j = #[trigger] row_major(width as nat, px, py);
                        self@.at(px, py) == (
                            samples@[4 * j],
                            samples@[4 * j + 1],
                            samples@[4 * j + 2],
                            samples@[4 * j + 3],
                        )
                    },
            decreases height - y,
        {
            let mut x: u32 = 0;
            while x < width
                invariant
                    x <= width,
                    y < height,
                    self@.width == width,
                    self@.height == height,
                    samples@.len() == 4 * row_major(width as nat, x as int, y as int),
                    forall|px: int, py: int|
                        0 <= px < width && (0 <= py < y || (py == y && px < x)) ==> {
                            let j = #[trigger] row_major(width as nat, px, py);
                            self@.at(px, py) == (
                                samples@[4 * j],
                                samples@[4 * j + 1],
                                samples@[4 * j + 2],
                                samples@[4 * j + 3],
                            )
                        },
                decreases width - x,
            {
                let p = self.get_pixel(x, y);
                samples.push(p.0);
                samples.push(p.1);
                samples.push(p.2);
                samples.push(p.3);
                proof {
                    assert forall|px: int, py: int|
                        0 <= px < width && (0 <= py < y || (py == y && px < x + 1)) implies {
                        let j = #[trigger] row_major(width as nat, px, py);
                        self@.at(px, py) == (
                            samples@[4 * j],
                            samples@[4 * j + 1],
                            samples@[4 * j + 2],
                            samples@[4 * j + 3],
                        )
                    } by {
                        if !(py == y && px == x) {
                            lemma_row_major_order(width as nat, px, py, x as int, y as int);
                        }
                    }
                }
                x = x + 1;
            }
            assert(row_major(width as nat, width as int, y as int) == row_major(
                width as nat,
                0,
                y + 1,
            )) by (nonlinear_arith);
            y = y + 1;
        }
        assert(4 * (width * height) == 4 * width * height) by (nonlinear_arith);
        samples
    }
}

} // verus!
