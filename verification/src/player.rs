use vstd::prelude::*;

verus! {

/// The identity of whoever claimed an edge or a cell. The board itself only
/// needs equality and copying on this type, plus one reserved neutral value:
/// the system player, which pre-owns the board's outer wall.
#[derive(Clone, Copy, PartialEq, Eq, Structural, Debug)]
pub enum PlayerId {
    /// The neutral owner of the board's boundary edges.
    System,
    /// A participant, told apart by number.
    Player(u16),
}

} // verus!
