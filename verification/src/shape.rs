//! Outlines for planar primitives.

use vstd::prelude::*;

verus! {

/// The outline of a planar primitive. A quad and a triangle share one plane
/// intersection; they differ only in the interior test applied to the planar
/// coordinates of the hit point.
#[derive(Clone, Copy, Debug, PartialEq, Eq, Structural)]
pub enum Shape {
    Quad,
    Triangle,
}

} // verus!
