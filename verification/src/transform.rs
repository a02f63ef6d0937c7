//! The decisions of the image-transformation stage: which dimensions a
//! resize aims at, and how many channels the extracted buffer has. The
//! resampling and color conversion themselves are delegated to an image
//! library by the caller, which hands the results back as plain values.

use vstd::prelude::*;

verus! {

/// The dimension a resize aims at: the requested one, or the source's own
/// when the request is 0, which makes the resize a no-op in that axis.
pub fn target_dim(requested: u32, source: u32) -> (r: u32)
    ensures
        r == if requested == 0 {
            source
        } else {
            requested
        },
{
    if requested == 0 {
        source
    } else {
        requested
    }
}

/// How many channels the extracted pixel buffer has: one for grayscale,
/// four with an alpha channel, three otherwise.
pub fn channel_count(grayscale: bool, alpha: bool) -> (r: u32)
    ensures
        r == if grayscale {
            1u32
        } else if alpha {
            4u32
        } else {
            3u32
        },
{
    if grayscale {
        1
    } else if alpha {
        4
    } else {
        3
    }
}

} // verus!
