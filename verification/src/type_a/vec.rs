//! Frame buffers.

use vstd::prelude::*;

verus! {

/// Bytes of one frame.
pub type FrameVec = Vec<u8>;

/// Bytes of an APDU assembled from a chain of I-blocks.
pub type ChainVec = Vec<u8>;

} // verus!
