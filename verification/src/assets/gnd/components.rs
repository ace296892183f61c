use vstd::prelude::*;

verus! {

/// An entity that represents the ground mesh of the map.
#[derive(Debug, Clone, Copy, PartialEq, Eq, Structural)]
pub struct Ground;

} // verus!
