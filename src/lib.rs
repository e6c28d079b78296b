use vstd::prelude::*;

pub mod color;
pub mod raster;

verus! {

/// Iteration budget of the escape-time estimate: a point whose orbit has not
/// left the disc of radius 2 after this many steps counts as bounded.
pub const MAX_ITERS: u32 = 100;

} // verus!
