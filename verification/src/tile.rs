use vstd::prelude::*;

verus! {

/// What a cell of the grid holds.
#[derive(PartialEq, Eq, Structural, Clone, Copy, Debug)]
pub enum TileType {
    /// Solid: nothing moves onto it.
    Wall,
    /// Open: can be walked on.
    Floor,
}

} // verus!
