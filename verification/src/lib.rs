//! Hangul glyph extraction from a fixed-layout sprite sheet, subpixel packing
//! of the glyphs, and a simulated preview of how the packed glyphs render on
//! an RGB-striped display.
//!
//! The sprite sheet is a grid of 12 by 12 pixel cells, 588 to a row, that
//! holds the 11172 precomposed Hangul syllables in code point order.
//! [`locator`] finds the cell of a syllable, [`extract`] cuts the glyph out
//! and packs three source columns into the channels of one packed column,
//! [`compose`] lays the glyphs of a text out side by side and line below
//! line, and [`simulate`] renders the preview. [`raster`] is the model in
//! which the contracts say what an image holds, and [`images`] holds the
//! pixels, in buffers of the `image` crate.

pub mod binarize;
pub mod compose;
pub mod extract;
pub mod images;
pub mod locator;
pub mod raster;
pub mod simulate;
pub mod text;
