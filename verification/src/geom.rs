//! Axis-aligned rectangles and the overlap test, at the specification level.

use vstd::prelude::*;

verus! {

/// An axis-aligned rectangle in sub-pixels: top-left corner, width, height.
#[verifier::ext_equal]
pub ghost struct RectM {
    pub x: int,
    pub y: int,
    pub w: int,
    pub h: int,
}

/// Standard AABB overlap: each rectangle's left edge lies left of the
/// other's right edge, and likewise vertically.
pub open spec fn rects_overlap(a: RectM, b: RectM) -> bool {
    &&& a.x < b.x + b.w
    &&& b.x < a.x + a.w
    &&& a.y < b.y + b.h
    &&& b.y < a.y + a.h
}

} // verus!
