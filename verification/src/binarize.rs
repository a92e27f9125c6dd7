//! The hard threshold that turns a channel intensity into pure black or white.

use vstd::prelude::*;

verus! {

/// The thresholded value of a channel intensity: zero stays zero, anything
/// else becomes full intensity.
pub open spec fn binarized(v: u8) -> u8 {
    if v == 0 {
        0
    } else {
        255
    }
}

/// Whether a channel intensity is one of the two values a binarized raster may hold.
pub open spec fn is_binary(v: u8) -> bool {
    v == 0 || v == 255
}

/// Thresholds one channel intensity. The threshold is hard: only exact zero
/// counts as black.
pub fn binarize(v: u8) -> (r: u8)
    ensures
        r == binarized(v),
{
    if v == 0 {
        0
    } else {
        255
    }
}

/// Binarizing is idempotent: a second pass changes nothing.
pub proof fn lemma_binarize_idempotent(v: u8)
    ensures
        binarized(binarized(v)) == binarized(v),
{
}

/// A binarized value is black or full intensity, and binary values are
/// exactly the fixed points of the threshold.
pub proof fn lemma_binarized_is_binary(v: u8)
    ensures
        is_binary(binarized(v)),
        is_binary(v) <==> binarized(v) == v,
{
}

} // verus!
