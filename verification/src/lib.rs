//! Core state for a dots-and-boxes style connection game: a rectangular
//! lattice of cells separated by claimable edges. The [`board::Board`] type
//! owns three flat arrays (horizontal edges, vertical edges, cells), each
//! addressed by a row-major linear formula, and exposes construction,
//! bounds-checked read/write accessors, and the validity predicates that keep
//! every access inside the arrays.

pub mod board;
pub mod player;
pub mod util;
