use vstd::prelude::*;

verus! {

/// A signed 2D coordinate, used as the input shape for cell lookups. Signed,
/// so that out-of-range on the low side is representable and rejected rather
/// than wrapped.
#[derive(Clone, Copy, PartialEq, Eq, Structural, Debug)]
pub struct Vector2i {
    pub x: i32,
    pub y: i32,
}

} // verus!
