//! What the face counter needs to know of a frame besides its pixels.
use vstd::prelude::*;

verus! {

/// Width and height of a grey-scale video frame, in pixels.
#[derive(Clone, Copy, Debug, PartialEq, Eq)]
pub struct ImageDims {
    pub width: i32,
    pub height: i32,
}

} // verus!
