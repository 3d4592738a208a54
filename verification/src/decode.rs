//! Hardware decoders.

use vstd::prelude::*;

pub mod conduct;
pub mod laws;
pub mod mediacodec;
pub mod open;
pub mod pools;
pub mod rendering;
pub mod v4l2;

verus! {

/// A codec a hardware decoder may take.
#[derive(Clone, Copy, Debug, PartialEq, Eq, Structural)]
pub enum Codec {
    H264,
    H265,
    Av1,
}

} // verus!
