//! Sprite layers of a chunk: dense layers keep a tile for every index,
//! sparse layers keep only the tiles that were set.

use vstd::prelude::*;
use crate::index_map::{IndexMap, keys_distinct, has_key, map_of, lemma_map_of_entry};
use crate::tile::{Color, Entity, MeshHandle, RawTile};

verus! {

/// The tile that a dense sequence of tiles shows at an index: the tile
/// there, unless its alpha is zero.
pub open spec fn dense_tile_at(tiles: Seq<RawTile>, index: int) -> Option<RawTile> {
    if 0 <= index < tiles.len() && !tiles[index].color.spec_is_transparent() {
        Some(tiles[index])
    } else {
        None
    }
}

/// The tile that a sparse map of tiles holds at an index.
pub open spec fn sparse_tile_at(tiles: Map<usize, RawTile>, index: usize) -> Option<RawTile> {
    if tiles.contains_key(index) {
        Some(tiles[index])
    } else {
        None
    }
}

/// The attributes of dense tiles: every tile gives four vertices its sprite
/// index and its color.
pub open spec fn dense_attributes_of(tiles: Seq<RawTile>, indexes: Seq<usize>, colors: Seq<Color>) -> bool {
    &&& indexes.len() == 4 * tiles.len()
    &&& colors.len() == 4 * tiles.len()
    &&& forall|j: int| 0 <= j < indexes.len() ==> #[trigger] indexes[j] == tiles[j / 4].index
    &&& forall|j: int| 0 <= j < colors.len() ==> #[trigger] colors[j] == tiles[j / 4].color
}

/// The sprite index of vertex `j` of sparse tiles: that of the tile at index
/// `j / 4`, or zero where there is none.
pub open spec fn sparse_index_at(tiles: Map<usize, RawTile>, j: int) -> usize {
    if tiles.contains_key((j / 4) as usize) {
        tiles[(j / 4) as usize].index
    } else {
        0
    }
}

/// The color of vertex `j` of sparse tiles: that of the tile at index
/// `j / 4`, or a transparent color where there is none.
pub open spec fn sparse_color_at(tiles: Map<usize, RawTile>, j: int) -> Color {
    if tiles.contains_key((j / 4) as usize) {
        tiles[(j / 4) as usize].color
    } else {
        Color::spec_clear()
    }
}

/// The attributes of sparse tiles over an area: four vertices for every
/// index of the area, with the sprite index and color of the tile at that
/// index, or zero and a transparent color where there is none.
pub open spec fn sparse_attributes_of(
    area: int,
    tiles: Map<usize, RawTile>,
    indexes: Seq<usize>,
    colors: Seq<Color>,
) -> bool {
    &&& indexes.len() == 4 * area
    &&& colors.len() == 4 * area
    &&& forall|j: int| 0 <= j < 4 * area ==> #[trigger] indexes[j] == sparse_index_at(tiles, j)
    &&& forall|j: int| 0 <= j < 4 * area ==> #[trigger] colors[j] == sparse_color_at(tiles, j)
}

/// The dense tiles after the writes to sprite order `z` have been made in
/// order; each write is a sprite order, an index and a tile, and a write
/// past the end changes nothing.
pub open spec fn dense_written(tiles: Seq<RawTile>, ws: Seq<(usize, usize, RawTile)>, z: usize) -> Seq<RawTile>
    decreases ws.len(),
{
    if ws.len() == 0 {
        tiles
    } else {
        let prev = dense_written(tiles, ws.drop_last(), z);
        let w = ws.last();
        if w.0 == z && w.1 < prev.len() {
            prev.update(w.1 as int, w.2)
        } else {
            prev
        }
    }
}

/// The sparse tiles once a tile is set at an index: a transparent tile
/// clears the index, any other is stored there.
pub open spec fn sparse_set(tiles: Map<usize, RawTile>, index: usize, tile: RawTile) -> Map<usize, RawTile> {
    if tile.color.spec_is_transparent() {
        tiles.remove(index)
    } else {
        tiles.insert(index, tile)
    }
}

/// The sparse tiles after the writes to sprite order `z` have been made in
/// order.
pub open spec fn sparse_written(tiles: Map<usize, RawTile>, ws: Seq<(usize, usize, RawTile)>, z: usize) -> Map<
    usize,
    RawTile,
>
    decreases ws.len(),
{
    if ws.len() == 0 {
        tiles
    } else {
        let prev = sparse_written(tiles, ws.drop_last(), z);
        let w = ws.last();
        if w.0 == z {
            sparse_set(prev, w.1, w.2)
        } else {
            prev
        }
    }
}

/// The last write to an index of a dense layer is what the index holds.
pub proof fn lemma_last_write_dense(tiles: Seq<RawTile>, ws: Seq<(usize, usize, RawTile)>, z: usize, m: int)
    requires
        0 <= m < ws.len(),
        ws[m].0 == z,
        ws[m].1 < tiles.len(),
        forall|m2: int| m < m2 < ws.len() ==> !(#[trigger] ws[m2].0 == z && ws[m2].1 == ws[m].1),
    ensures
        dense_written(tiles, ws, z).len() == tiles.len(),
        dense_written(tiles, ws, z)[ws[m].1 as int] == ws[m].2,
    decreases ws.len(),
{
    lemma_dense_written_len(tiles, ws, z);
    lemma_dense_written_len(tiles, ws.drop_last(), z);
    if m < ws.len() - 1 {
        let prev = ws.drop_last();
        assert forall|m2: int| m < m2 < prev.len() implies !(#[trigger] prev[m2].0 == z && prev[m2].1 == prev[m].1) by {
            assert(prev[m2] == ws[m2]);
        }
        lemma_last_write_dense(tiles, prev, z, m);
        assert(!(ws.last().0 == z && ws.last().1 == ws[m].1));
    }
}

/// The last write to an index of a sparse layer decides what the index
/// holds: nothing if the tile written is transparent, else that tile.
pub proof fn lemma_last_write_sparse(tiles: Map<usize, RawTile>, ws: Seq<(usize, usize, RawTile)>, z: usize, m: int)
    requires
        0 <= m < ws.len(),
        ws[m].0 == z,
        forall|m2: int| m < m2 < ws.len() ==> !(#[trigger] ws[m2].0 == z && ws[m2].1 == ws[m].1),
    ensures
        sparse_tile_at(sparse_written(tiles, ws, z), ws[m].1) == if ws[m].2.color.spec_is_transparent() {
            None
        } else {
            Some(ws[m].2)
        },
    decreases ws.len(),
{
    if m < ws.len() - 1 {
        let prev = ws.drop_last();
        assert forall|m2: int| m < m2 < prev.len() implies !(#[trigger] prev[m2].0 == z && prev[m2].1 == prev[m].1) by {
            assert(prev[m2] == ws[m2]);
        }
        lemma_last_write_sparse(tiles, prev, z, m);
        assert(!(ws.last().0 == z && ws.last().1 == ws[m].1));
    }
}

/// Writing keeps the number of dense tiles.
pub proof fn lemma_dense_written_len(tiles: Seq<RawTile>, ws: Seq<(usize, usize, RawTile)>, z: usize)
    ensures
        dense_written(tiles, ws, z).len() == tiles.len(),
    decreases ws.len(),
{
    if ws.len() > 0 {
        lemma_dense_written_len(tiles, ws.drop_last(), z);
    }
}

/// Splits dense tiles into the sprite indexes and the colors of their
/// vertices, four of each per tile, for the renderer.
pub fn dense_tiles_to_attributes(tiles: &[RawTile]) -> (r: (Vec<usize>, Vec<Color>))
    requires
        tiles@.len() * 4 <= usize::MAX,
    ensures
        dense_attributes_of(tiles@, r.0@, r.1@),
{
    let capacity = tiles.len() * 4;
    let mut tile_indexes: Vec<usize> = Vec::with_capacity(capacity);
    let mut tile_colors: Vec<Color> = Vec::with_capacity(capacity);
    let mut t: usize = 0;
    while t < tiles.len()
        invariant
            t <= tiles@.len(),
            tile_indexes@.len() == 4 * t,
            tile_colors@.len() == 4 * t,
            forall|j: int| 0 <= j < 4 * t ==> #[trigger] tile_indexes@[j] == tiles@[j / 4].index,
            forall|j: int| 0 <= j < 4 * t ==> #[trigger] tile_colors@[j] == tiles@[j / 4].color,
        decreases tiles@.len() - t,
    {
        let tile = tiles[t];
        let mut c: usize = 0;
        while c < 4
            invariant
                t < tiles@.len(),
                tile == tiles@[t as int],
                c <= 4,
                tile_indexes@.len() == 4 * t + c,
                tile_colors@.len() == 4 * t + c,
                forall|j: int| 0 <= j < 4 * t + c ==> #[trigger] tile_indexes@[j] == tiles@[j / 4].index,
                forall|j: int| 0 <= j < 4 * t + c ==> #[trigger] tile_colors@[j] == tiles@[j / 4].color,
            decreases 4 - c,
        {
            tile_indexes.push(tile.index);
            tile_colors.push(tile.color);
            assert((4 * t + c) / 4 == t);
            c = c + 1;
        }
        t = t + 1;
    }
    (tile_indexes, tile_colors)
}

/// Splits sparse tiles into the sprite indexes and colors of the vertices
/// of every index of the area, four of each per index, for the renderer.
pub fn sparse_tiles_to_attributes(area: usize, tiles: &IndexMap<RawTile>) -> (r: (Vec<usize>, Vec<Color>))
    requires
        tiles.wf(),
        area * 4 <= usize::MAX,
        forall|k: usize| tiles.spec_map().contains_key(k) ==> k * 4 + 3 <= usize::MAX,
    ensures
        sparse_attributes_of(area as int, tiles.spec_map(), r.0@, r.1@),
{
    let len = area * 4;
    let mut tile_indexes: Vec<usize> = Vec::new();
    let mut tile_colors: Vec<Color> = Vec::new();
    let ghost s = tiles.spec_entries();
    proof {
        assert(s.take(0) =~= Seq::<(usize, RawTile)>::empty());
        assert(map_of(s.take(0)) =~= Map::<usize, RawTile>::empty());
    }
    let mut f: usize = 0;
    while f < len
        invariant
            len == area * 4,
            f <= len,
            tile_indexes@.len() == f,
            tile_colors@.len() == f,
            map_of(s.take(0)) == Map::<usize, RawTile>::empty(),
            forall|j: int| 0 <= j < f ==> #[trigger] tile_indexes@[j] == sparse_index_at(map_of(s.take(0)), j),
            forall|j: int| 0 <= j < f ==> #[trigger] tile_colors@[j] == sparse_color_at(map_of(s.take(0)), j),
        decreases len - f,
    {
        tile_indexes.push(0);
        tile_colors.push(Color::clear());
        f = f + 1;
    }
    let n = tiles.len();
    let mut e: usize = 0;
    while e < n
        invariant
            s == tiles.spec_entries(),
            keys_distinct(s),
            n == s.len(),
            e <= n,
            len == area * 4,
            tile_indexes@.len() == len,
            tile_colors@.len() == len,
            forall|k: usize| tiles.spec_map().contains_key(k) ==> k * 4 + 3 <= usize::MAX,
            forall|j: int| 0 <= j < len ==> #[trigger] tile_indexes@[j] == sparse_index_at(map_of(s.take(e as int)), j),
            forall|j: int| 0 <= j < len ==> #[trigger] tile_colors@[j] == sparse_color_at(map_of(s.take(e as int)), j),
        decreases n - e,
    {
        let (key, tile) = tiles.entry(e);
        let ghost m0 = map_of(s.take(e as int));
        let ghost m1 = map_of(s.take(e + 1));
        proof {
            lemma_map_of_entry(s, e as int);
            assert(tiles.spec_map().contains_key(key));
            assert(s.take(e + 1) =~= s.take(e as int).push(s[e as int]));
            assert(keys_distinct(s.take(e as int)));
            assert(!has_key(s.take(e as int), key)) by {
                if has_key(s.take(e as int), key) {
                    let i = choose|i: int| 0 <= i < e && s.take(e as int)[i].0 == key;
                    assert(s[i].0 == s[e as int].0);
                }
            }
            crate::index_map::lemma_map_of_push(s.take(e as int), s[e as int]);
        }
        let mut c: usize = 0;
        while c < 4
            invariant
                key * 4 + 3 <= usize::MAX,
                c <= 4,
                len == area * 4,
                m1 == m0.insert(key, tile),
                tile_indexes@.len() == len,
                tile_colors@.len() == len,
                forall|j: int| 0 <= j < len ==> #[trigger] tile_indexes@[j] == if (j / 4) as usize == key && j - 4 * key < c {
                    sparse_index_at(m1, j)
                } else {
                    sparse_index_at(m0, j)
                },
                forall|j: int| 0 <= j < len ==> #[trigger] tile_colors@[j] == if (j / 4) as usize == key && j - 4 * key < c {
                    sparse_color_at(m1, j)
                } else {
                    sparse_color_at(m0, j)
                },
            decreases 4 - c,
        {
            let pos = key * 4 + c;
            assert(pos / 4 == key as int);
            if pos < tile_indexes.len() {
                tile_indexes.set(pos, tile.index);
                tile_colors.set(pos, tile.color);
            }
            c = c + 1;
        }
        assert forall|j: int| 0 <= j < len implies #[trigger] tile_indexes@[j] == sparse_index_at(m1, j)
            && tile_colors@[j] == sparse_color_at(m1, j) by {
            if (j / 4) as usize == key {
                assert(j - 4 * key < 4);
            }
        }
        e = e + 1;
    }
    proof {
        assert(s.take(n as int) =~= s);
    }
    (tile_indexes, tile_colors)
}

/// A layer with dense sprite tiles: a tile for every index of the chunk.
#[derive(Clone, Debug)]
pub struct DenseLayer {
    mesh: MeshHandle,
    tiles: Vec<RawTile>,
}

impl DenseLayer {
    /// The handle of the layer's mesh.
    pub closed spec fn spec_mesh(self) -> MeshHandle {
        self.mesh
    }

    /// The tiles of the layer, one per index.
    pub closed spec fn spec_tiles(self) -> Seq<RawTile> {
        self.tiles@
    }

    /// The tile that the layer shows at an index.
    pub open spec fn spec_tile(self, index: usize) -> Option<RawTile> {
        dense_tile_at(self.spec_tiles(), index as int)
    }

    /// Constructs a new dense layer with tiles.
    pub fn new(tiles: Vec<RawTile>) -> (l: DenseLayer)
        ensures
            l.spec_tiles() == tiles@,
            l.spec_mesh() == MeshHandle::spec_default(),
    {
        DenseLayer { mesh: MeshHandle::default_handle(), tiles }
    }

    /// Returns the handle of the mesh.
    pub fn mesh(&self) -> (m: &MeshHandle)
        ensures
            *m == self.spec_mesh(),
    {
        &self.mesh
    }

    /// Sets the mesh for the layer.
    pub fn set_mesh(&mut self, mesh: MeshHandle)
        ensures
            final(self).spec_mesh() == mesh,
            final(self).spec_tiles() == old(self).spec_tiles(),
    {
        self.mesh = mesh;
    }

    /// Sets a raw tile at an index; an index past the end is ignored.
    pub fn set_tile(&mut self, index: usize, tile: RawTile)
        ensures
            final(self).spec_mesh() == old(self).spec_mesh(),
            final(self).spec_tiles() == if index < old(self).spec_tiles().len() {
                old(self).spec_tiles().update(index as int, tile)
            } else {
                old(self).spec_tiles()
            },
    {
        if index < self.tiles.len() {
            self.tiles.set(index, tile);
        }
    }

    /// Removes the tile at an index by setting its alpha to zero.
    pub fn remove_tile(&mut self, index: usize)
        ensures
            final(self).spec_mesh() == old(self).spec_mesh(),
            final(self).spec_tiles() == if index < old(self).spec_tiles().len() {
                old(self).spec_tiles().update(
                    index as int,
                    RawTile {
                        color: Color { a: 0, ..old(self).spec_tiles()[index as int].color },
                        ..old(self).spec_tiles()[index as int]
                    },
                )
            } else {
                old(self).spec_tiles()
            },
    {
        if index < self.tiles.len() {
            let mut tile = self.tiles[index];
            tile.color.set_transparent();
            self.tiles.set(index, tile);
        }
    }

    /// Gets the tile at an index, unless its alpha is zero.
    pub fn get_tile(&self, index: usize) -> (r: Option<&RawTile>)
        ensures
            r matches Some(t) ==> self.spec_tile(index) == Some(*t),
            r is None ==> self.spec_tile(index) is None,
    {
        if index < self.tiles.len() && !self.tiles[index].color.is_transparent() {
            Some(&self.tiles[index])
        } else {
            None
        }
    }

    /// Gets a mutable reference to the tile at an index, unless its alpha
    /// is zero.
    pub fn get_tile_mut(&mut self, index: usize) -> (r: Option<&mut RawTile>)
        ensures
            r matches Some(t) ==> {
                &&& old(self).spec_tile(index) == Some(*t)
                &&& final(self).spec_tiles() == old(self).spec_tiles().update(index as int, *final(t))
                &&& final(self).spec_mesh() == old(self).spec_mesh()
            },
            r is None ==> old(self).spec_tile(index) is None && *final(self) == *old(self),
    {
        if index < self.tiles.len() && !self.tiles[index].color.is_transparent() {
            Some(&mut self.tiles[index])
        } else {
            None
        }
    }

    /// Gets all the indices of the tiles that are shown, in increasing
    /// order.
    pub fn get_tile_indices(&self) -> (r: Vec<usize>)
        ensures
            forall|i: int, j: int| 0 <= i < j < r@.len() ==> r@[i] < r@[j],
            forall|i: int| 0 <= i < r@.len() ==> self.spec_tile(#[trigger] r@[i]) is Some,
            forall|k: usize| self.spec_tile(k) is Some ==> r@.contains(k),
    {
        let mut indices: Vec<usize> = Vec::new();
        let mut i: usize = 0;
        while i < self.tiles.len()
            invariant
                i <= self.tiles@.len(),
                forall|a: int, b: int| 0 <= a < b < indices@.len() ==> indices@[a] < indices@[b],
                forall|a: int| 0 <= a < indices@.len() ==> indices@[a] < i,
                forall|a: int| 0 <= a < indices@.len() ==> self.spec_tile(#[trigger] indices@[a]) is Some,
                forall|k: usize| k < i && #[trigger] self.spec_tile(k) is Some ==> indices@.contains(k),
            decreases self.tiles@.len() - i,
        {
            let ghost before = indices@;
            if !self.tiles[i].color.is_transparent() {
                indices.push(i);
                assert(indices@[indices@.len() - 1] == i);
            }
            assert forall|k: usize| k < i + 1 && self.spec_tile(k) is Some implies indices@.contains(k) by {
                if k < i {
                    assert(before.contains(k));
                    let j = choose|j: int| 0 <= j < before.len() && before[j] == k;
                    assert(indices@[j] == k);
                } else {
                    assert(indices@[indices@.len() - 1] == k);
                }
            }
            i = i + 1;
        }
        indices
    }

    /// Takes all the tiles in the layer and returns their attributes for
    /// the renderer.
    pub fn tiles_to_attributes(&self, area: usize) -> (r: (Vec<usize>, Vec<Color>))
        requires
            self.spec_tiles().len() * 4 <= usize::MAX,
        ensures
            dense_attributes_of(self.spec_tiles(), r.0@, r.1@),
    {
        dense_tiles_to_attributes(self.tiles.as_slice())
    }
}

/// A layer with sparse sprite tiles: only the tiles that were set.
#[derive(Clone, Debug)]
pub struct SparseLayer {
    mesh: MeshHandle,
    tiles: IndexMap<RawTile>,
}

impl SparseLayer {
    /// The handle of the layer's mesh.
    pub closed spec fn spec_mesh(self) -> MeshHandle {
        self.mesh
    }

    /// The map that holds the tiles.
    pub closed spec fn spec_store(self) -> IndexMap<RawTile> {
        self.tiles
    }

    /// The tiles of the layer by index.
    pub open spec fn spec_tiles(self) -> Map<usize, RawTile> {
        self.spec_store().spec_map()
    }

    /// The layer's map of tiles is well formed.
    pub open spec fn wf(self) -> bool {
        self.spec_store().wf()
    }

    /// The tile that the layer holds at an index.
    pub open spec fn spec_tile(self, index: usize) -> Option<RawTile> {
        sparse_tile_at(self.spec_tiles(), index)
    }

    /// Constructs a new sparse layer with a map of tiles.
    pub fn new(tiles: IndexMap<RawTile>) -> (l: SparseLayer)
        requires
            tiles.wf(),
        ensures
            l.wf(),
            l.spec_store() == tiles,
            l.spec_mesh() == MeshHandle::spec_default(),
    {
        SparseLayer { mesh: MeshHandle::default_handle(), tiles }
    }

    /// Returns the handle of the mesh.
    pub fn mesh(&self) -> (m: &MeshHandle)
        ensures
            *m == self.spec_mesh(),
    {
        &self.mesh
    }

    /// Sets the mesh for the layer.
    pub fn set_mesh(&mut self, mesh: MeshHandle)
        ensures
            final(self).spec_mesh() == mesh,
            final(self).spec_store() == old(self).spec_store(),
    {
        self.mesh = mesh;
    }

    /// Sets a raw tile at an index; a transparent tile clears the index.
    pub fn set_tile(&mut self, index: usize, tile: RawTile)
        requires
            old(self).wf(),
        ensures
            final(self).wf(),
            final(self).spec_mesh() == old(self).spec_mesh(),
            final(self).spec_tiles() == sparse_set(old(self).spec_tiles(), index, tile),
    {
        if tile.color.is_transparent() {
            self.tiles.remove(index);
            assert(self.spec_tiles() =~= old(self).spec_tiles().remove(index));
        } else {
            self.tiles.insert(index, tile);
            assert(self.spec_tiles() =~= old(self).spec_tiles().insert(index, tile));
        }
    }

    /// Removes the tile at an index.
    pub fn remove_tile(&mut self, index: usize)
        requires
            old(self).wf(),
        ensures
            final(self).wf(),
            final(self).spec_mesh() == old(self).spec_mesh(),
            final(self).spec_tiles() == old(self).spec_tiles().remove(index),
    {
        self.tiles.remove(index);
    }

    /// Gets the tile at an index.
    pub fn get_tile(&self, index: usize) -> (r: Option<&RawTile>)
        requires
            self.wf(),
        ensures
            r matches Some(t) ==> self.spec_tile(index) == Some(*t),
            r is None ==> self.spec_tile(index) is None,
    {
        self.tiles.get(index)
    }

    /// Gets a mutable reference to the tile at an index.
    pub fn get_tile_mut(&mut self, index: usize) -> (r: Option<&mut RawTile>)
        requires
            old(self).wf(),
        ensures
            final(self).wf(),
            final(self).spec_mesh() == old(self).spec_mesh(),
            r matches Some(t) ==> old(self).spec_tile(index) == Some(*t)
                && final(self).spec_tiles() == old(self).spec_tiles().insert(index, *final(t)),
            r is None ==> old(self).spec_tile(index) is None && *final(self) == *old(self),
    {
        self.tiles.get_mut(index)
    }

    /// Gets all the indices of the tiles in the layer.
    pub fn get_tile_indices(&self) -> (r: Vec<usize>)
        requires
            self.wf(),
        ensures
            r@.no_duplicates(),
            r@.to_set() == self.spec_tiles().dom(),
    {
        self.tiles.keys()
    }

    /// Takes all the tiles in the layer and returns the attributes of every
    /// index of the area for the renderer.
    pub fn tiles_to_attributes(&self, area: usize) -> (r: (Vec<usize>, Vec<Color>))
        requires
            self.wf(),
            area * 4 <= usize::MAX,
            forall|k: usize| self.spec_tiles().contains_key(k) ==> k * 4 + 3 <= usize::MAX,
        ensures
            sparse_attributes_of(area as int, self.spec_tiles(), r.0@, r.1@),
    {
        assert forall|k: usize| self.tiles.spec_map().contains_key(k) implies k * 4 + 3 <= usize::MAX by {
            assert(self.spec_tiles().contains_key(k));
        }
        sparse_tiles_to_attributes(area, &self.tiles)
    }
}

/// Specifies which kind of layer to construct, either a dense or a sparse
/// sprite layer.
///
/// A dense layer keeps a tile for every index of the chunk, which suits
/// backgrounds; a sparse layer keeps only the tiles that were set, which
/// suits entities, objects or items.
#[derive(Copy, Clone, PartialEq, Eq, Structural, Hash, Debug)]
pub enum LayerKind {
    /// Specifies the tilemap to add a dense sprite layer.
    Dense,
    /// Specifies the tilemap to add a sparse sprite layer.
    Sparse,
}

/// The storage of a sprite layer, either dense or sparse.
#[derive(Clone, Debug)]
pub enum LayerKindInner {
    /// Inner dense layer storage.
    Dense(DenseLayer),
    /// Inner sparse layer storage.
    Sparse(SparseLayer),
}

impl LayerKindInner {
    /// The storage is well formed.
    pub open spec fn wf(self) -> bool {
        match self {
            LayerKindInner::Dense(_) => true,
            LayerKindInner::Sparse(l) => l.wf(),
        }
    }

    /// The kind of the storage.
    pub open spec fn spec_kind(self) -> LayerKind {
        match self {
            LayerKindInner::Dense(_) => LayerKind::Dense,
            LayerKindInner::Sparse(_) => LayerKind::Sparse,
        }
    }

    /// The handle of the layer's mesh.
    pub open spec fn spec_mesh(self) -> MeshHandle {
        match self {
            LayerKindInner::Dense(l) => l.spec_mesh(),
            LayerKindInner::Sparse(l) => l.spec_mesh(),
        }
    }

    /// The tile that the layer shows at an index.
    pub open spec fn spec_tile(self, index: usize) -> Option<RawTile> {
        match self {
            LayerKindInner::Dense(l) => l.spec_tile(index),
            LayerKindInner::Sparse(l) => l.spec_tile(index),
        }
    }

    /// True when the layer can hand its attributes to the renderer over an
    /// area without an overflow.
    pub open spec fn attributes_defined(self, area: usize) -> bool {
        match self {
            LayerKindInner::Dense(l) => l.spec_tiles().len() * 4 <= usize::MAX,
            LayerKindInner::Sparse(l) => area * 4 <= usize::MAX && forall|k: usize|
                l.spec_tiles().contains_key(k) ==> k * 4 + 3 <= usize::MAX,
        }
    }

    /// The attributes that the layer hands to the renderer.
    pub open spec fn attributes_of(self, area: usize, indexes: Seq<usize>, colors: Seq<Color>) -> bool {
        match self {
            LayerKindInner::Dense(l) => dense_attributes_of(l.spec_tiles(), indexes, colors),
            LayerKindInner::Sparse(l) => sparse_attributes_of(area as int, l.spec_tiles(), indexes, colors),
        }
    }

    /// `after` is this layer with the tile at an index set: a dense layer
    /// ignores an index past its end.
    pub open spec fn set_tile_gives(self, after: LayerKindInner, index: usize, tile: RawTile) -> bool {
        match (self, after) {
            (LayerKindInner::Dense(a), LayerKindInner::Dense(b)) => {
                &&& b.spec_mesh() == a.spec_mesh()
                &&& b.spec_tiles() == if index < a.spec_tiles().len() {
                    a.spec_tiles().update(index as int, tile)
                } else {
                    a.spec_tiles()
                }
            },
            (LayerKindInner::Sparse(a), LayerKindInner::Sparse(b)) => {
                &&& b.spec_mesh() == a.spec_mesh()
                &&& b.spec_tiles() == sparse_set(a.spec_tiles(), index, tile)
            },
            _ => false,
        }
    }

    /// `after` is this layer with the tile at an index removed: a dense
    /// layer sets its alpha to zero.
    pub open spec fn remove_tile_gives(self, after: LayerKindInner, index: usize) -> bool {
        match (self, after) {
            (LayerKindInner::Dense(a), LayerKindInner::Dense(b)) => {
                &&& b.spec_mesh() == a.spec_mesh()
                &&& b.spec_tiles() == if index < a.spec_tiles().len() {
                    a.spec_tiles().update(
                        index as int,
                        RawTile {
                            color: Color { a: 0, ..a.spec_tiles()[index as int].color },
                            ..a.spec_tiles()[index as int]
                        },
                    )
                } else {
                    a.spec_tiles()
                }
            },
            (LayerKindInner::Sparse(a), LayerKindInner::Sparse(b)) => {
                &&& b.spec_mesh() == a.spec_mesh()
                &&& b.spec_tiles() == a.spec_tiles().remove(index)
            },
            _ => false,
        }
    }

    /// `after` is this layer with its mesh set.
    pub open spec fn set_mesh_gives(self, after: LayerKindInner, mesh: MeshHandle) -> bool {
        match (self, after) {
            (LayerKindInner::Dense(a), LayerKindInner::Dense(b)) => {
                &&& b.spec_mesh() == mesh
                &&& b.spec_tiles() == a.spec_tiles()
            },
            (LayerKindInner::Sparse(a), LayerKindInner::Sparse(b)) => {
                &&& b.spec_mesh() == mesh
                &&& b.spec_tiles() == a.spec_tiles()
            },
            _ => false,
        }
    }

    /// `after` is this layer with the tile at an index replaced by `tile`,
    /// through a mutable reference.
    pub open spec fn write_tile_gives(self, after: LayerKindInner, index: usize, tile: RawTile) -> bool {
        match (self, after) {
            (LayerKindInner::Dense(a), LayerKindInner::Dense(b)) => {
                &&& b.spec_mesh() == a.spec_mesh()
                &&& b.spec_tiles() == a.spec_tiles().update(index as int, tile)
            },
            (LayerKindInner::Sparse(a), LayerKindInner::Sparse(b)) => {
                &&& b.spec_mesh() == a.spec_mesh()
                &&& b.spec_tiles() == a.spec_tiles().insert(index, tile)
            },
            _ => false,
        }
    }

    /// True when a write at an index is stored: a dense layer stores only
    /// the indexes below its length.
    pub open spec fn holds_index(self, index: usize) -> bool {
        match self {
            LayerKindInner::Dense(l) => index < l.spec_tiles().len(),
            LayerKindInner::Sparse(_) => true,
        }
    }

    /// What the layer shows of a tile written to it: a transparent tile
    /// shows nothing, since a dense layer hides it and a sparse layer
    /// clears its index.
    pub open spec fn shows(self, tile: RawTile) -> Option<RawTile> {
        if tile.color.spec_is_transparent() {
            None
        } else {
            Some(tile)
        }
    }

    /// The sprite indexes that the layer hands to the renderer over an area.
    pub open spec fn spec_indexes(self, area: usize) -> Seq<usize> {
        match self {
            LayerKindInner::Dense(l) => Seq::new(4 * l.spec_tiles().len(), |j: int| l.spec_tiles()[j / 4].index),
            LayerKindInner::Sparse(l) => Seq::new(4 * area as nat, |j: int| sparse_index_at(l.spec_tiles(), j)),
        }
    }

    /// The colors that the layer hands to the renderer over an area.
    pub open spec fn spec_colors(self, area: usize) -> Seq<Color> {
        match self {
            LayerKindInner::Dense(l) => Seq::new(4 * l.spec_tiles().len(), |j: int| l.spec_tiles()[j / 4].color),
            LayerKindInner::Sparse(l) => Seq::new(4 * area as nat, |j: int| sparse_color_at(l.spec_tiles(), j)),
        }
    }

    /// `after` is this layer once the writes to sprite order `z` have been
    /// made in order.
    pub open spec fn written_gives(self, after: LayerKindInner, ws: Seq<(usize, usize, RawTile)>, z: usize) -> bool {
        match (self, after) {
            (LayerKindInner::Dense(a), LayerKindInner::Dense(b)) => {
                &&& b.spec_mesh() == a.spec_mesh()
                &&& b.spec_tiles() == dense_written(a.spec_tiles(), ws, z)
            },
            (LayerKindInner::Sparse(a), LayerKindInner::Sparse(b)) => {
                &&& b.spec_mesh() == a.spec_mesh()
                &&& b.spec_tiles() == sparse_written(a.spec_tiles(), ws, z)
            },
            _ => false,
        }
    }

    /// Sets the mesh of the layer.
    pub fn set_mesh(&mut self, mesh: MeshHandle)
        requires
            old(self).wf(),
        ensures
            final(self).wf(),
            old(self).set_mesh_gives(*final(self), mesh),
    {
        match self {
            LayerKindInner::Dense(l) => l.set_mesh(mesh),
            LayerKindInner::Sparse(l) => l.set_mesh(mesh),
        }
    }

    /// Sets a raw tile at an index.
    pub fn set_tile(&mut self, index: usize, tile: RawTile)
        requires
            old(self).wf(),
        ensures
            final(self).wf(),
            old(self).set_tile_gives(*final(self), index, tile),
    {
        match self {
            LayerKindInner::Dense(l) => l.set_tile(index, tile),
            LayerKindInner::Sparse(l) => l.set_tile(index, tile),
        }
    }

    /// Removes the tile at an index.
    pub fn remove_tile(&mut self, index: usize)
        requires
            old(self).wf(),
        ensures
            final(self).wf(),
            old(self).remove_tile_gives(*final(self), index),
    {
        match self {
            LayerKindInner::Dense(l) => l.remove_tile(index),
            LayerKindInner::Sparse(l) => l.remove_tile(index),
        }
    }

    /// Gets the tile at an index.
    pub fn get_tile(&self, index: usize) -> (r: Option<&RawTile>)
        requires
            self.wf(),
        ensures
            r matches Some(t) ==> self.spec_tile(index) == Some(*t),
            r is None ==> self.spec_tile(index) is None,
    {
        match self {
            LayerKindInner::Dense(l) => l.get_tile(index),
            LayerKindInner::Sparse(l) => l.get_tile(index),
        }
    }

    /// Gets a mutable reference to the tile at an index.
    pub fn get_tile_mut(&mut self, index: usize) -> (r: Option<&mut RawTile>)
        requires
            old(self).wf(),
        ensures
            final(self).wf(),
            r matches Some(t) ==> old(self).spec_tile(index) == Some(*t) && old(self).write_tile_gives(
                *final(self),
                index,
                *final(t),
            ),
            r is None ==> old(self).spec_tile(index) is None && *final(self) == *old(self),
    {
        match self {
            LayerKindInner::Dense(l) => l.get_tile_mut(index),
            LayerKindInner::Sparse(l) => l.get_tile_mut(index),
        }
    }

    /// Gets all the indices of the tiles that the layer shows, without
    /// repeats.
    pub fn get_tile_indices(&self) -> (r: Vec<usize>)
        requires
            self.wf(),
        ensures
            r@.no_duplicates(),
            forall|k: usize| r@.contains(k) <==> self.spec_tile(k) is Some,
    {
        match self {
            LayerKindInner::Dense(l) => {
                let r = l.get_tile_indices();
                assert forall|a: int, b: int| 0 <= a < r@.len() && 0 <= b < r@.len() && a != b implies r@[a] != r@[b] by {
                    if a < b {
                        assert(r@[a] < r@[b]);
                    } else {
                        assert(r@[b] < r@[a]);
                    }
                }
                r
            },
            LayerKindInner::Sparse(l) => {
                let r = l.get_tile_indices();
                assert forall|k: usize| r@.contains(k) <==> self.spec_tile(k) is Some by {
                    assert(r@.to_set().contains(k) == r@.contains(k));
                }
                r
            },
        }
    }

    /// Takes all the tiles in the layer and returns their attributes for
    /// the renderer.
    pub fn tiles_to_attributes(&self, area: usize) -> (r: (Vec<usize>, Vec<Color>))
        requires
            self.wf(),
            self.attributes_defined(area),
        ensures
            self.attributes_of(area, r.0@, r.1@),
            r.0@ == self.spec_indexes(area),
            r.1@ == self.spec_colors(area),
    {
        let r = match self {
            LayerKindInner::Dense(l) => l.tiles_to_attributes(area),
            LayerKindInner::Sparse(l) => l.tiles_to_attributes(area),
        };
        assert(r.0@ =~= self.spec_indexes(area));
        assert(r.1@ =~= self.spec_colors(area));
        r
    }

    /// Returns the handle of the mesh.
    pub fn mesh(&self) -> (m: &MeshHandle)
        ensures
            *m == self.spec_mesh(),
    {
        match self {
            LayerKindInner::Dense(l) => l.mesh(),
            LayerKindInner::Sparse(l) => l.mesh(),
        }
    }
}

/// A sprite layer which stores either a sparse or a dense layer, with the
/// entity it was spawned as and the collision entities of its tiles.
#[derive(Clone, Debug)]
pub struct SpriteLayer {
    /// The storage of the layer.
    pub inner: LayerKindInner,
    /// The entity of the layer, once it has been spawned.
    pub entity: Option<Entity>,
    /// The collision entities of tiles, by tile index.
    pub collision_entities: IndexMap<Entity>,
}

impl SpriteLayer {
    /// The layer's maps are well formed.
    pub open spec fn wf(self) -> bool {
        self.inner.wf() && self.collision_entities.wf()
    }
}

} // verus!
