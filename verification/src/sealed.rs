use vstd::prelude::*;

verus! {

/// Types allowed to be used as a promise are sealed to ensure only promise types can be
/// used.
pub trait Sealed {}

} // verus!
