use vstd::prelude::*;

verus! {

/// Marker that keeps [`DisplayPixel`](crate::DisplayPixel) closed to the
/// pixel types of this crate.
pub trait Sealed {}

} // verus!
