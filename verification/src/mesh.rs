//! The mesh of a chunk layer: a quad of four vertices per tile, drawn as
//! two triangles.

use vstd::prelude::*;
use crate::dimension::Dimension2;

verus! {

/// The vertex of quad `t` that corner `j` of its two triangles uses.
pub open spec fn quad_index(t: int, j: int) -> int {
    let corner: int = if j == 0 || j == 3 {
        0
    } else if j == 1 || j == 5 {
        2
    } else if j == 2 {
        1
    } else {
        3
    };
    4 * t + corner
}

/// The mesh of a chunk layer, for chunks of some dimensions in tiles.
#[derive(Copy, Clone, PartialEq, Eq, Structural, Hash, Debug)]
pub struct ChunkMesh {
    dimensions: Dimension2,
}

impl ChunkMesh {
    /// The dimensions of the chunk in tiles.
    pub closed spec fn spec_dimensions(self) -> Dimension2 {
        self.dimensions
    }

    /// Constructs a new chunk mesh.
    pub fn new(dimensions: Dimension2) -> (m: ChunkMesh)
        ensures
            m.spec_dimensions() == dimensions,
    {
        ChunkMesh { dimensions }
    }

    /// The dimensions of the chunk in tiles.
    pub fn dimensions(&self) -> (d: Dimension2)
        ensures
            d == self.spec_dimensions(),
    {
        self.dimensions
    }

    /// The vertex indices of the mesh's triangles: for every tile, in row
    /// order, the triangles (0, 2, 1) and (0, 3, 2) of its quad.
    pub fn indices(&self) -> (r: Vec<u32>)
        requires
            self.spec_dimensions().width <= i32::MAX,
            self.spec_dimensions().height <= i32::MAX,
            self.spec_dimensions().width * self.spec_dimensions().height * 4 + 3 <= u32::MAX,
        ensures
            r@.len() == 6 * self.spec_dimensions().width * self.spec_dimensions().height,
            forall|t: int, j: int|
                0 <= t < self.spec_dimensions().width * self.spec_dimensions().height && 0 <= j < 6
                    ==> r@[6 * t + j] == quad_index(t, j),
    {
        let n = self.dimensions.width * self.dimensions.height;
        let mut indices: Vec<u32> = Vec::new();
        let mut t: u32 = 0;
        while t < n
            invariant
                t <= n,
                n * 4 + 3 <= u32::MAX,
                indices@.len() == 6 * t,
                forall|t2: int, j: int| 0 <= t2 < t && 0 <= j < 6 ==> indices@[6 * t2 + j] == quad_index(t2, j),
            decreases n - t,
        {
            let i = t * 4;
            let ghost before = indices@;
            indices.push(i);
            indices.push(i + 2);
            indices.push(i + 1);
            indices.push(i);
            indices.push(i + 3);
            indices.push(i + 2);
            proof {
                assert forall|t2: int, j: int| 0 <= t2 < t + 1 && 0 <= j < 6 implies indices@[6 * t2 + j] == quad_index(t2, j) by {
                    if t2 < t {
                        assert(6 * t2 + j < 6 * t);
                        assert(indices@[6 * t2 + j] == before[6 * t2 + j]);
                    }
                }
            }
            t = t + 1;
        }
        proof {
            assert(6 * (n as int) == 6 * self.spec_dimensions().width * self.spec_dimensions().height) by (nonlinear_arith)
                requires
                    n == self.spec_dimensions().width * self.spec_dimensions().height,
            ;
        }
        indices
    }
}

} // verus!
