//! The grid topologies that a tilemap can be rendered with.

use vstd::prelude::*;

verus! {

/// Topology of the tilemap grid (square or hex).
#[derive(Copy, Clone, PartialEq, Eq, Structural, Hash, Debug)]
pub enum GridTopology {
    /// Square grid.
    Square,
    /// Hex grid with rows offset (hexes with pointy top).
    HexY,
    /// Hex grid with columns offset (hexes with flat top).
    HexX,
    /// Hex grid with offset on even rows (hexes with pointy top).
    HexEvenRows,
    /// Hex grid with offset on odd rows (hexes with pointy top).
    HexOddRows,
    /// Hex grid with offset on even columns (hexes with flat top).
    HexEvenCols,
    /// Hex grid with offset on odd columns (hexes with flat top).
    HexOddCols,
}

} // verus!
