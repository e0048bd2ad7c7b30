//! Tiles organised into chunks: a chunk has a point and one optional sprite
//! layer per sprite order.

use vstd::prelude::*;
use crate::dimension::Dimension2;
use crate::index_map::IndexMap;
use crate::index_map::has_key;
use crate::layer::{
    DenseLayer, LayerKind, LayerKindInner, SparseLayer, SpriteLayer, dense_written, lemma_dense_written_len,
    sparse_written,
};
use crate::point::Point2;
use crate::tile::{Color, Entity, MeshHandle, RawTile, Tile};

verus! {

/// True when `l` is a layer of the given kind as a chunk of the given area
/// makes it: no tiles shown, the default mesh, no entity and no collision
/// entities; a dense layer holds `area` transparent tiles.
pub open spec fn fresh_layer(l: SpriteLayer, kind: LayerKind, area: int) -> bool {
    &&& l.wf()
    &&& l.inner.spec_kind() == kind
    &&& l.inner.spec_mesh() == MeshHandle::spec_default()
    &&& l.entity is None
    &&& l.collision_entities.spec_map() == Map::<usize, Entity>::empty()
    &&& match l.inner {
        LayerKindInner::Dense(d) => d.spec_tiles() == Seq::new(area as nat, |i: int| RawTile::spec_empty()),
        LayerKindInner::Sparse(s) => s.spec_tiles() == Map::<usize, RawTile>::empty(),
    }
}

/// The entities of the layers that have one, from the lowest sprite order
/// to the highest.
pub open spec fn entities_of(layers: Seq<Option<SpriteLayer>>) -> Seq<Entity>
    decreases layers.len(),
{
    if layers.len() == 0 {
        Seq::empty()
    } else {
        let rest = entities_of(layers.drop_last());
        match layers.last() {
            Some(l) => match l.entity {
                Some(e) => rest.push(e),
                None => rest,
            },
            None => rest,
        }
    }
}

/// The entities of layers are exactly the entities recorded on them: an
/// entity is listed if and only if some layer holds it as its entity.
pub proof fn lemma_entities_of_contains(layers: Seq<Option<SpriteLayer>>, e: Entity)
    ensures
        entities_of(layers).contains(e) <==> exists|z: int|
            0 <= z < layers.len() && #[trigger] layers[z] is Some && layers[z].unwrap().entity == Some(e),
    decreases layers.len(),
{
    if layers.len() > 0 {
        let prev = layers.drop_last();
        lemma_entities_of_contains(prev, e);
        let rest = entities_of(prev);
        let n = layers.len() - 1;
        if entities_of(layers).contains(e) {
            let i = choose|i: int| 0 <= i < entities_of(layers).len() && entities_of(layers)[i] == e;
            if i < rest.len() {
                assert(rest[i] == e);
                let z = choose|z: int| 0 <= z < prev.len() && #[trigger] prev[z] is Some && prev[z].unwrap().entity == Some(e);
                assert(layers[z] == prev[z]);
            } else {
                assert(layers[n] is Some && layers[n].unwrap().entity == Some(e));
            }
        }
        if exists|z: int| 0 <= z < layers.len() && #[trigger] layers[z] is Some && layers[z].unwrap().entity == Some(e) {
            let z = choose|z: int| 0 <= z < layers.len() && #[trigger] layers[z] is Some && layers[z].unwrap().entity == Some(e);
            if z < n {
                assert(prev[z] == layers[z]);
                let i = choose|i: int| 0 <= i < rest.len() && rest[i] == e;
                assert(entities_of(layers)[i] == e);
            } else {
                assert(entities_of(layers) == rest.push(e));
                assert(entities_of(layers)[rest.len() as int] == e);
            }
        }
    }
}

/// Despawning a chunk despawns every entity recorded on it: the entities
/// that a chunk hands over are exactly its own entity, if it has one, and
/// the entity of each of its layers that has one.
pub proof fn lemma_chunk_entities_despawned(c: Chunk, e: Entity)
    ensures
        c.all_entities().contains(e) <==> c.spec_entity() == Some(e) || exists|z: int|
            0 <= z < c.spec_layers().len() && #[trigger] c.spec_layers()[z] is Some && c.spec_layers()[z].unwrap().entity
                == Some(e),
{
    lemma_entities_of_contains(c.spec_layers(), e);
    let own: Seq<Entity> = match c.spec_entity() {
        Some(x) => seq![x],
        None => Seq::empty(),
    };
    let rest = entities_of(c.spec_layers());
    let all = c.all_entities();
    assert(all == own + rest);
    if all.contains(e) {
        let i = choose|i: int| 0 <= i < all.len() && all[i] == e;
        if i < own.len() {
            assert(own[i] == e);
        } else {
            assert(rest[i - own.len()] == e);
        }
    }
    if c.spec_entity() == Some(e) {
        assert(all[0] == e);
    } else if rest.contains(e) {
        let i = choose|i: int| 0 <= i < rest.len() && rest[i] == e;
        assert(all[own.len() + i] == e);
    }
}

/// A chunk with no writes made is itself written.
pub proof fn lemma_chunk_written_nothing(c: Chunk)
    requires
        c.wf(),
    ensures
        c.written(c, Seq::<(usize, usize, RawTile)>::empty()),
{
    assert forall|z: int| 0 <= z < c.spec_layers().len() implies match #[trigger] c.spec_layers()[z] {
        Some(l) => c.spec_layers()[z] matches Some(l2) && {
            &&& l2.entity == l.entity
            &&& l2.collision_entities == l.collision_entities
            &&& l.inner.written_gives(l2.inner, Seq::<(usize, usize, RawTile)>::empty(), z as usize)
        },
        None => c.spec_layers()[z] is None,
    } by {
        match c.spec_layers()[z] {
            Some(l) => {
                match l.inner {
                    LayerKindInner::Dense(a) => {
                        assert(dense_written(a.spec_tiles(), Seq::<(usize, usize, RawTile)>::empty(), z as usize) == a.spec_tiles());
                    },
                    LayerKindInner::Sparse(a) => {
                        assert(sparse_written(a.spec_tiles(), Seq::<(usize, usize, RawTile)>::empty(), z as usize) == a.spec_tiles());
                    },
                }
            },
            None => {},
        }
    }
}

/// The sprite indexes of the layers, lowest sprite order first, that a
/// chunk hands to the renderer over an area.
pub open spec fn layers_indexes(layers: Seq<Option<SpriteLayer>>, area: usize) -> Seq<usize>
    decreases layers.len(),
{
    if layers.len() == 0 {
        Seq::empty()
    } else {
        layers_indexes(layers.drop_last(), area) + match layers.last() {
            Some(l) => l.inner.spec_indexes(area),
            None => Seq::empty(),
        }
    }
}

/// The colors of the layers, lowest sprite order first, that a chunk hands
/// to the renderer over an area.
pub open spec fn layers_colors(layers: Seq<Option<SpriteLayer>>, area: usize) -> Seq<Color>
    decreases layers.len(),
{
    if layers.len() == 0 {
        Seq::empty()
    } else {
        layers_colors(layers.drop_last(), area) + match layers.last() {
            Some(l) => l.inner.spec_colors(area),
            None => Seq::empty(),
        }
    }
}

/// The layers once the layer at `from` has moved to `to`, replacing what
/// was there and leaving `from` empty; moving onto itself changes nothing.
pub open spec fn moved_layers(ls: Seq<Option<SpriteLayer>>, from: int, to: int) -> Seq<Option<SpriteLayer>> {
    if from == to {
        ls
    } else {
        ls.update(to, ls[from]).update(from, None)
    }
}

/// The layers once the layer at `z` has been removed, if `z` is a slot.
pub open spec fn removed_layer(ls: Seq<Option<SpriteLayer>>, z: int) -> Seq<Option<SpriteLayer>> {
    if 0 <= z < ls.len() {
        ls.update(z, None)
    } else {
        ls
    }
}

/// A chunk which holds the sprite layers of its tiles.
#[derive(Clone, Debug)]
pub struct Chunk {
    point: Point2,
    sprite_layers: Vec<Option<SpriteLayer>>,
    entity: Option<Entity>,
}

impl Chunk {
    /// The point of the chunk.
    pub closed spec fn spec_point(self) -> Point2 {
        self.point
    }

    /// The sprite layers of the chunk, by sprite order.
    pub closed spec fn spec_layers(self) -> Seq<Option<SpriteLayer>> {
        self.sprite_layers@
    }

    /// The entity the chunk was spawned as, if it was.
    pub closed spec fn spec_entity(self) -> Option<Entity> {
        self.entity
    }

    /// The entities of the chunk, for despawning it: its own, then those of
    /// its layers from the lowest sprite order.
    pub open spec fn all_entities(self) -> Seq<Entity> {
        let own = match self.spec_entity() {
            Some(e) => seq![e],
            None => Seq::empty(),
        };
        own + entities_of(self.spec_layers())
    }

    /// Every layer of the chunk is well formed.
    pub open spec fn wf(self) -> bool {
        forall|z: int|
            0 <= z < self.spec_layers().len() && #[trigger] self.spec_layers()[z] is Some
                ==> self.spec_layers()[z].unwrap().wf()
    }

    /// True when the chunk has a layer at a sprite order.
    pub open spec fn has_layer(self, z: usize) -> bool {
        z < self.spec_layers().len() && self.spec_layers()[z as int] is Some
    }

    /// The layer at a sprite order, where there is one.
    pub open spec fn layer(self, z: usize) -> SpriteLayer {
        self.spec_layers()[z as int].unwrap()
    }

    /// The tile that the chunk shows at a sprite order and an index.
    pub open spec fn spec_tile(self, z: usize, index: usize) -> Option<RawTile> {
        if self.has_layer(z) {
            self.layer(z).inner.spec_tile(index)
        } else {
            None
        }
    }

    /// `after` is this chunk with the layer at `z` replaced by `l`.
    pub open spec fn replaced(self, after: Chunk, z: usize, l: SpriteLayer) -> bool {
        &&& after.spec_point() == self.spec_point()
        &&& after.spec_entity() == self.spec_entity()
        &&& after.spec_layers() == self.spec_layers().update(z as int, Some(l))
    }

    /// `after` is this chunk with only the storage of its layer at `z`
    /// changed: the layer's entity and collision entities are kept.
    pub open spec fn inner_changed(self, after: Chunk, z: usize) -> bool {
        &&& after.has_layer(z)
        &&& self.replaced(after, z, after.layer(z))
        &&& after.layer(z).entity == self.layer(z).entity
        &&& after.layer(z).collision_entities == self.layer(z).collision_entities
    }

    /// `after` is this chunk with only the entities of its layer at `z`
    /// changed: the layer's storage is kept.
    pub open spec fn entities_changed(self, after: Chunk, z: usize) -> bool {
        &&& after.has_layer(z)
        &&& self.replaced(after, z, after.layer(z))
        &&& after.layer(z).inner == self.layer(z).inner
    }

    /// `after` is this chunk once the writes (sprite order, index, tile)
    /// have been made in order: every layer keeps its kind, mesh and
    /// entities, and a sprite order without a layer takes no write.
    pub open spec fn written(self, after: Chunk, ws: Seq<(usize, usize, RawTile)>) -> bool {
        &&& after.wf()
        &&& after.spec_point() == self.spec_point()
        &&& after.spec_entity() == self.spec_entity()
        &&& after.spec_layers().len() == self.spec_layers().len()
        &&& forall|z: int|
            0 <= z < self.spec_layers().len() ==> match #[trigger] self.spec_layers()[z] {
                Some(l) => after.spec_layers()[z] matches Some(l2) && {
                    &&& l2.entity == l.entity
                    &&& l2.collision_entities == l.collision_entities
                    &&& l.inner.written_gives(l2.inner, ws, z as usize)
                },
                None => after.spec_layers()[z] is None,
            }
    }

    /// The entities to report for the writes: each sprite order that takes a
    /// write and has a layer with an entity, once, with that entity.
    pub open spec fn written_entities(self, ws: Seq<(usize, usize, RawTile)>, es: Seq<(usize, Entity)>) -> bool {
        &&& vstd::prelude::Seq::len(es) <= ws.len()
        &&& crate::index_map::keys_distinct(es)
        &&& forall|j: int|
            0 <= j < es.len() ==> self.has_layer(#[trigger] es[j].0) && self.layer(es[j].0).entity == Some(
                es[j].1,
            ) && exists|k: int| 0 <= k < ws.len() && ws[k].0 == es[j].0
        &&& forall|k: int|
            0 <= k < ws.len() && self.has_layer(#[trigger] ws[k].0) && self.layer(ws[k].0).entity is Some
                ==> has_key(es, ws[k].0)
    }

    /// A new chunk at a point with a layer of the given kind wherever
    /// `layers` has one, each made for the area of the dimensions.
    pub fn new(point: Point2, layers: &[Option<LayerKind>], dimensions: Dimension2) -> (c: Chunk)
        requires
            (exists|z: int| 0 <= z < layers@.len() && layers@[z] == Some(LayerKind::Dense))
                ==> dimensions.spec_area() <= u32::MAX,
        ensures
            c.wf(),
            c.spec_point() == point,
            c.spec_entity() is None,
            c.spec_layers().len() == layers@.len(),
            forall|z: int|
                0 <= z < layers@.len() ==> match #[trigger] layers@[z] {
                    Some(kind) => (c.spec_layers()[z] matches Some(l) && fresh_layer(
                        l,
                        kind,
                        dimensions.spec_area(),
                    )),
                    None => c.spec_layers()[z] is None,
                },
    {
        let mut sprite_layers: Vec<Option<SpriteLayer>> = Vec::new();
        let mut i: usize = 0;
        while i < layers.len()
            invariant
                i <= layers@.len(),
                sprite_layers@.len() == i,
                forall|z: int| 0 <= z < i ==> sprite_layers@[z] is None,
            decreases layers@.len() - i,
        {
            sprite_layers.push(None);
            i = i + 1;
        }
        let mut chunk = Chunk { point, sprite_layers, entity: None };
        let mut z: usize = 0;
        while z < layers.len()
            invariant
                z <= layers@.len(),
                (exists|k: int| 0 <= k < layers@.len() && layers@[k] == Some(LayerKind::Dense))
                    ==> dimensions.spec_area() <= u32::MAX,
                chunk.wf(),
                chunk.spec_point() == point,
                chunk.spec_entity() is None,
                chunk.spec_layers().len() == layers@.len(),
                forall|k: int|
                    0 <= k < layers@.len() ==> match #[trigger] layers@[k] {
                        Some(kind) => if k < z {
                            (chunk.spec_layers()[k] matches Some(l) && fresh_layer(
                                l,
                                kind,
                                dimensions.spec_area(),
                            ))
                        } else {
                            chunk.spec_layers()[k] is None
                        },
                        None => chunk.spec_layers()[k] is None,
                    },
            decreases layers@.len() - z,
        {
            if let Some(kind) = layers[z] {
                assert(layers@[z as int] == Some(kind));
                chunk.add_layer(&kind, z, dimensions);
            }
            z = z + 1;
        }
        chunk
    }

    /// Makes a fresh layer of a kind for the area of the dimensions.
    fn fresh(kind: &LayerKind, dimensions: Dimension2) -> (l: SpriteLayer)
        requires
            *kind == LayerKind::Dense ==> dimensions.spec_area() <= u32::MAX,
        ensures
            fresh_layer(l, *kind, dimensions.spec_area()),
    {
        match kind {
            LayerKind::Dense => {
                let area = dimensions.area() as usize;
                let mut tiles: Vec<RawTile> = Vec::new();
                let mut i: usize = 0;
                while i < area
                    invariant
                        i <= area,
                        tiles@.len() == i,
                        forall|k: int| 0 <= k < i ==> tiles@[k] == RawTile::spec_empty(),
                    decreases area - i,
                {
                    tiles.push(RawTile { index: 0, color: Color::clear() });
                    i = i + 1;
                }
                let l = SpriteLayer {
                    inner: LayerKindInner::Dense(DenseLayer::new(tiles)),
                    entity: None,
                    collision_entities: IndexMap::new(),
                };
                assert(tiles@ =~= Seq::new(area as nat, |i: int| RawTile::spec_empty()));
                l
            },
            LayerKind::Sparse => {
                SpriteLayer {
                    inner: LayerKindInner::Sparse(SparseLayer::new(IndexMap::new())),
                    entity: None,
                    collision_entities: IndexMap::new(),
                }
            },
        }
    }

    /// Adds a fresh layer of a kind at a sprite order, replacing the layer
    /// there; a sprite order past the last layer is ignored.
    pub fn add_layer(&mut self, kind: &LayerKind, z_order: usize, dimensions: Dimension2)
        requires
            old(self).wf(),
            *kind == LayerKind::Dense ==> dimensions.spec_area() <= u32::MAX,
        ensures
            final(self).wf(),
            final(self).spec_point() == old(self).spec_point(),
            final(self).spec_entity() == old(self).spec_entity(),
            final(self).spec_layers().len() == old(self).spec_layers().len(),
            z_order < old(self).spec_layers().len() ==> (final(self).spec_layers()[z_order as int] matches Some(
                l,
            ) && fresh_layer(l, *kind, dimensions.spec_area())),
            forall|k: int|
                0 <= k < old(self).spec_layers().len() && k != z_order
                    ==> #[trigger] final(self).spec_layers()[k] == old(self).spec_layers()[k],
    {
        let layer = Chunk::fresh(kind, dimensions);
        if z_order < self.sprite_layers.len() {
            self.sprite_layers.set(z_order, Some(layer));
        }
    }

    /// Returns the point of the location of the chunk.
    pub fn point(&self) -> (p: Point2)
        ensures
            p == self.spec_point(),
    {
        self.point
    }

    /// `after` is this chunk with its layers replaced by `layers`.
    pub open spec fn with_layers(self, after: Chunk, layers: Seq<Option<SpriteLayer>>) -> bool {
        &&& after.spec_point() == self.spec_point()
        &&& after.spec_entity() == self.spec_entity()
        &&& after.spec_layers() == layers
    }

    /// Moves the layer at `from_z` to `to_z`, replacing what was there, and
    /// leaves `from_z` without a layer. Moving a layer onto itself changes
    /// nothing.
    pub fn move_layer(&mut self, from_z: usize, to_z: usize)
        requires
            old(self).wf(),
            from_z < old(self).spec_layers().len(),
            to_z < old(self).spec_layers().len(),
        ensures
            final(self).wf(),
            old(self).with_layers(*final(self), moved_layers(old(self).spec_layers(), from_z as int, to_z as int)),
    {
        if from_z != to_z {
            let ghost l0 = self.sprite_layers@;
            let layer = self.sprite_layers.remove(from_z);
            self.sprite_layers.insert(from_z, None);
            assert(self.sprite_layers@ =~= l0.update(from_z as int, None));
            self.sprite_layers.set(to_z, layer);
            assert(self.sprite_layers@ =~= moved_layers(l0, from_z as int, to_z as int));
        }
    }

    /// Removes the layer at a sprite order, with its tiles; does nothing if
    /// the sprite order is past the last layer.
    pub fn remove_layer(&mut self, z_order: usize)
        requires
            old(self).wf(),
        ensures
            final(self).wf(),
            old(self).with_layers(*final(self), removed_layer(old(self).spec_layers(), z_order as int)),
    {
        if z_order < self.sprite_layers.len() {
            self.sprite_layers.set(z_order, None);
        }
    }

    /// Sets the mesh of the layer at a sprite order, if there is one.
    pub fn set_mesh(&mut self, z_order: usize, mesh: MeshHandle)
        requires
            old(self).wf(),
        ensures
            final(self).wf(),
            old(self).has_layer(z_order) ==> old(self).inner_changed(*final(self), z_order) && old(
                self,
            ).layer(z_order).inner.set_mesh_gives(final(self).layer(z_order).inner, mesh),
            !old(self).has_layer(z_order) ==> *final(self) == *old(self),
    {
        if z_order < self.sprite_layers.len() && self.sprite_layers[z_order].is_some() {
            match &mut self.sprite_layers[z_order] {
                Some(layer) => {
                    layer.inner.set_mesh(mesh);
                },
                None => {},
            }
        }
    }

    /// Sets a single tile at an index of the layer at the tile's sprite
    /// order, if there is one.
    pub fn set_tile(&mut self, index: usize, tile: Tile)
        requires
            old(self).wf(),
        ensures
            final(self).wf(),
            old(self).has_layer(tile.sprite_order) ==> old(self).inner_changed(
                *final(self),
                tile.sprite_order,
            ) && old(self).layer(tile.sprite_order).inner.set_tile_gives(
                final(self).layer(tile.sprite_order).inner,
                index,
                tile.spec_raw(),
            ),
            !old(self).has_layer(tile.sprite_order) ==> *final(self) == *old(self),
    {
        let raw_tile = RawTile { index: tile.sprite_index, color: tile.tint };
        self.set_raw_tile(tile.sprite_order, index, raw_tile);
    }

    /// Sets a single raw tile at a sprite order and an index, if there is a
    /// layer at that sprite order.
    pub fn set_raw_tile(&mut self, z_order: usize, index: usize, tile: RawTile)
        requires
            old(self).wf(),
        ensures
            final(self).wf(),
            old(self).has_layer(z_order) ==> old(self).inner_changed(*final(self), z_order) && old(
                self,
            ).layer(z_order).inner.set_tile_gives(final(self).layer(z_order).inner, index, tile),
            !old(self).has_layer(z_order) ==> *final(self) == *old(self),
    {
        if z_order < self.sprite_layers.len() && self.sprite_layers[z_order].is_some() {
            match &mut self.sprite_layers[z_order] {
                Some(layer) => {
                    layer.inner.set_tile(index, tile);
                },
                None => {},
            }
        }
    }

    /// Makes the writes (sprite order, index, tile) in order, and returns
    /// the sprite orders written whose layers have entities, with those
    /// entities.
    pub fn write_tiles(&mut self, ws: &Vec<(usize, usize, RawTile)>) -> (es: Vec<(usize, Entity)>)
        requires
            old(self).wf(),
        ensures
            old(self).written(*final(self), ws@),
            old(self).written_entities(ws@, es@),
    {
        let ghost c0 = *self;
        let mut es: Vec<(usize, Entity)> = Vec::new();
        let mut k: usize = 0;
        proof {
            assert forall|z: int| 0 <= z < c0.spec_layers().len() implies match #[trigger] c0.spec_layers()[z] {
                Some(l) => self.spec_layers()[z] matches Some(l2) && {
                    &&& l2.entity == l.entity
                    &&& l2.collision_entities == l.collision_entities
                    &&& l.inner.written_gives(l2.inner, ws@.take(0), z as usize)
                },
                None => self.spec_layers()[z] is None,
            } by {
                assert(ws@.take(0).len() == 0);
            }
        }
        while k < ws.len()
            invariant
                k <= ws@.len(),
                c0.wf(),
                c0.written(*self, ws@.take(k as int)),
                c0.written_entities(ws@.take(k as int), es@),
            decreases ws@.len() - k,
        {
            let w = ws[k];
            let z = w.0;
            let ghost before = *self;
            let ghost ws0 = ws@.take(k as int);
            let ghost ws1 = ws@.take(k as int + 1);
            assert(ws1.drop_last() =~= ws0);
            assert(ws1.last() == w);
            self.set_raw_tile(z, w.1, w.2);
            proof {
                assert forall|y: int| 0 <= y < c0.spec_layers().len() implies match #[trigger] c0.spec_layers()[y] {
                    Some(l) => self.spec_layers()[y] matches Some(l2) && {
                        &&& l2.entity == l.entity
                        &&& l2.collision_entities == l.collision_entities
                        &&& l.inner.written_gives(l2.inner, ws1, y as usize)
                    },
                    None => self.spec_layers()[y] is None,
                } by {
                    if c0.spec_layers()[y] is Some {
                        let l = c0.spec_layers()[y].unwrap();
                        let lb = before.spec_layers()[y].unwrap();
                        assert(before.spec_layers()[y] is Some);
                        assert(l.inner.written_gives(lb.inner, ws0, y as usize));
                        if y == z as int {
                            assert(before.has_layer(z));
                            let la = self.spec_layers()[y].unwrap();
                            assert(self.spec_layers()[y] is Some);
                            assert(lb.inner.set_tile_gives(la.inner, w.1, w.2));
                            match (l.inner, lb.inner, la.inner) {
                                (LayerKindInner::Dense(a), LayerKindInner::Dense(b), LayerKindInner::Dense(c)) => {
                                    lemma_dense_written_len(a.spec_tiles(), ws0, z);
                                    assert(b.spec_tiles() == dense_written(a.spec_tiles(), ws0, z));
                                    assert(c.spec_tiles() == dense_written(a.spec_tiles(), ws1, z));
                                },
                                (LayerKindInner::Sparse(a), LayerKindInner::Sparse(b), LayerKindInner::Sparse(c)) => {
                                    assert(c.spec_tiles() == sparse_written(a.spec_tiles(), ws1, z));
                                },
                                _ => {},
                            }
                        } else {
                            assert(self.spec_layers()[y] == before.spec_layers()[y]);
                            assert(before.sprite_layers@.len() == before.sprite_layers.len());
                            assert((y as usize) as int == y);
                            assert((y as usize) != w.0);
                            assert(ws1.drop_last() == ws0);
                            match (l.inner, lb.inner) {
                                (LayerKindInner::Dense(a), LayerKindInner::Dense(b)) => {
                                    assert(dense_written(a.spec_tiles(), ws1, y as usize) == dense_written(a.spec_tiles(), ws0, y as usize));
                                },
                                (LayerKindInner::Sparse(a), LayerKindInner::Sparse(b)) => {
                                    assert(sparse_written(a.spec_tiles(), ws1, y as usize) == sparse_written(a.spec_tiles(), ws0, y as usize));
                                },
                                _ => {},
                            }
                        }
                    } else {
                        assert(before.spec_layers()[y] is None);
                        if y == z as int {
                            assert(!before.has_layer(z));
                        } else {
                            assert(self.spec_layers()[y] == before.spec_layers()[y]);
                        }
                    }
                }
            }
            let e = self.get_entity(z);
            let ghost es0 = es@;
            proof {
                if (z as int) < c0.spec_layers().len() {
                    assert(c0.spec_layers()[z as int] == c0.spec_layers()[z as int]);
                }
                assert(e == if c0.has_layer(z) { c0.layer(z).entity } else { None });
            }
            match e {
                Some(entity) => {
                    let mut found = false;
                    let mut j: usize = 0;
                    while j < es.len()
                        invariant
                            j <= es@.len(),
                            found <==> exists|i: int| 0 <= i < j && es@[i].0 == z,
                        decreases es@.len() - j,
                    {
                        if es[j].0 == z {
                            found = true;
                        }
                        j = j + 1;
                    }
                    if !found {
                        es.push((z, entity));
                    }
                },
                None => {},
            }
            proof {
                assert forall|j: int| 0 <= j < es@.len() implies c0.has_layer(#[trigger] es@[j].0) && c0.layer(
                    es@[j].0,
                ).entity == Some(es@[j].1) && exists|i: int| 0 <= i < ws1.len() && ws1[i].0 == es@[j].0 by {
                    if j < es0.len() {
                        assert(es@[j] == es0[j]);
                        let i = choose|i: int| 0 <= i < ws0.len() && ws0[i].0 == es0[j].0;
                        assert(ws1[i] == ws0[i]);
                    } else {
                        assert(ws1[k as int].0 == z);
                    }
                }
                assert forall|i: int|
                    0 <= i < ws1.len() && c0.has_layer(#[trigger] ws1[i].0) && c0.layer(ws1[i].0).entity is Some
                        implies has_key(es@, ws1[i].0) by {
                    if i < k {
                        assert(ws1[i] == ws0[i]);
                        let m = choose|m: int| 0 <= m < es0.len() && es0[m].0 == ws0[i].0;
                        assert(es@[m] == es0[m]);
                    } else {
                        if has_key(es0, z) {
                            let m = choose|m: int| 0 <= m < es0.len() && es0[m].0 == z;
                            assert(es@[m] == es0[m]);
                        } else {
                            assert(es@[es@.len() - 1].0 == z);
                        }
                    }
                }
                assert(crate::index_map::keys_distinct(es@));
            }
            k = k + 1;
        }
        assert(ws@.take(ws@.len() as int) =~= ws@);
        es
    }

    /// Removes a tile from the layer at a sprite order, if there is one.
    pub fn remove_tile(&mut self, index: usize, z_order: usize)
        requires
            old(self).wf(),
        ensures
            final(self).wf(),
            old(self).has_layer(z_order) ==> old(self).inner_changed(*final(self), z_order) && old(
                self,
            ).layer(z_order).inner.remove_tile_gives(final(self).layer(z_order).inner, index),
            !old(self).has_layer(z_order) ==> *final(self) == *old(self),
    {
        if z_order < self.sprite_layers.len() && self.sprite_layers[z_order].is_some() {
            match &mut self.sprite_layers[z_order] {
                Some(layer) => {
                    layer.inner.remove_tile(index);
                },
                None => {},
            }
        }
    }

    /// Sets the entity of the layer at a sprite order, if there is one.
    pub fn add_entity(&mut self, z_order: usize, entity: Entity)
        requires
            old(self).wf(),
        ensures
            final(self).wf(),
            old(self).has_layer(z_order) ==> old(self).entities_changed(*final(self), z_order)
                && final(self).layer(z_order).entity == Some(entity)
                && final(self).layer(z_order).collision_entities == old(self).layer(
                z_order,
            ).collision_entities,
            !old(self).has_layer(z_order) ==> *final(self) == *old(self),
    {
        if z_order < self.sprite_layers.len() && self.sprite_layers[z_order].is_some() {
            match &mut self.sprite_layers[z_order] {
                Some(layer) => {
                    layer.entity = Some(entity);
                },
                None => {},
            }
        }
    }

    /// Sets the collision entity of a tile index in the layer at a sprite
    /// order, if there is one.
    pub fn insert_collision_entity(&mut self, z_order: usize, index: usize, entity: Entity)
        requires
            old(self).wf(),
        ensures
            final(self).wf(),
            old(self).has_layer(z_order) ==> old(self).entities_changed(*final(self), z_order)
                && final(self).layer(z_order).entity == old(self).layer(z_order).entity
                && final(self).layer(z_order).collision_entities.spec_map() == old(self).layer(
                z_order,
            ).collision_entities.spec_map().insert(index, entity),
            !old(self).has_layer(z_order) ==> *final(self) == *old(self),
    {
        if z_order < self.sprite_layers.len() && self.sprite_layers[z_order].is_some() {
            match &mut self.sprite_layers[z_order] {
                Some(layer) => {
                    layer.collision_entities.insert(index, entity);
                },
                None => {},
            }
        }
    }

    /// Gets the entity of the layer at a sprite order, if any.
    pub fn get_entity(&self, z_order: usize) -> (r: Option<Entity>)
        ensures
            r == if self.has_layer(z_order) {
                self.layer(z_order).entity
            } else {
                None
            },
    {
        if z_order < self.sprite_layers.len() {
            match &self.sprite_layers[z_order] {
                Some(layer) => layer.entity,
                None => None,
            }
        } else {
            None
        }
    }

    /// Gets the collision entity of a tile index in the layer at a sprite
    /// order, if any.
    pub fn get_collision_entities(&self, index: usize, z_order: usize) -> (r: Option<Entity>)
        requires
            self.wf(),
        ensures
            r == if self.has_layer(z_order) && self.layer(
                z_order,
            ).collision_entities.spec_map().contains_key(index) {
                Some(self.layer(z_order).collision_entities.spec_map()[index])
            } else {
                None
            },
    {
        if z_order < self.sprite_layers.len() {
            match &self.sprite_layers[z_order] {
                Some(layer) => match layer.collision_entities.get(index) {
                    Some(e) => Some(*e),
                    None => None,
                },
                None => None,
            }
        } else {
            None
        }
    }

    /// Gets the entities of all the layers that have one, for despawning
    /// them together.
    pub fn get_entities(&self) -> (r: Vec<Entity>)
        ensures
            r@ == self.all_entities(),
            forall|e: Entity|
                #[trigger] r@.contains(e) <==> self.spec_entity() == Some(e) || exists|z: int|
                    0 <= z < self.spec_layers().len() && #[trigger] self.spec_layers()[z] is Some
                        && self.spec_layers()[z].unwrap().entity == Some(e),
    {
        let mut entities: Vec<Entity> = Vec::new();
        match self.entity {
            Some(e) => {
                entities.push(e);
            },
            None => {},
        }
        let ghost head = entities@;
        let mut i: usize = 0;
        while i < self.sprite_layers.len()
            invariant
                i <= self.sprite_layers@.len(),
                head == match self.entity {
                    Some(e) => seq![e],
                    None => Seq::<Entity>::empty(),
                },
                entities@ == head + entities_of(self.sprite_layers@.take(i as int)),
            decreases self.sprite_layers@.len() - i,
        {
            proof {
                assert(self.sprite_layers@.take(i + 1).drop_last() =~= self.sprite_layers@.take(
                    i as int,
                ));
            }
            match &self.sprite_layers[i] {
                Some(layer) => match layer.entity {
                    Some(entity) => {
                        entities.push(entity);
                    },
                    None => {},
                },
                None => {},
            }
            i = i + 1;
        }
        proof {
            assert(self.sprite_layers@.take(i as int) =~= self.sprite_layers@);
            assert forall|e: Entity| #[trigger] entities@.contains(e) <==> self.spec_entity() == Some(e) || exists|z: int|
                0 <= z < self.spec_layers().len() && #[trigger] self.spec_layers()[z] is Some
                    && self.spec_layers()[z].unwrap().entity == Some(e) by {
                lemma_chunk_entities_despawned(*self, e);
            }
        }
        entities
    }

    /// Records the entity the chunk was spawned as.
    pub fn set_chunk_entity(&mut self, entity: Entity)
        ensures
            final(self).spec_entity() == Some(entity),
            final(self).spec_point() == old(self).spec_point(),
            final(self).spec_layers() == old(self).spec_layers(),
    {
        self.entity = Some(entity);
    }

    /// The entity the chunk was spawned as, if it was.
    pub fn chunk_entity(&self) -> (r: Option<Entity>)
        ensures
            r == self.spec_entity(),
    {
        self.entity
    }

    /// Forgets the entity the chunk was spawned as, and returns it.
    pub fn take_chunk_entity(&mut self) -> (r: Option<Entity>)
        ensures
            r == old(self).spec_entity(),
            final(self).spec_entity() is None,
            final(self).spec_point() == old(self).spec_point(),
            final(self).spec_layers() == old(self).spec_layers(),
    {
        let r = self.entity;
        self.entity = None;
        r
    }

    /// Gets the tile at a sprite order and an index, if the chunk shows one.
    pub fn get_tile(&self, z_order: usize, index: usize) -> (r: Option<&RawTile>)
        requires
            self.wf(),
        ensures
            r matches Some(t) ==> self.spec_tile(z_order, index) == Some(*t),
            r is None ==> self.spec_tile(z_order, index) is None,
    {
        if z_order < self.sprite_layers.len() {
            match &self.sprite_layers[z_order] {
                Some(layer) => layer.inner.get_tile(index),
                None => None,
            }
        } else {
            None
        }
    }

    /// Gets the indices of the tiles that the layer at a sprite order
    /// shows, if there is a layer there.
    pub fn get_tile_indices(&self, z_order: usize) -> (r: Option<Vec<usize>>)
        requires
            self.wf(),
        ensures
            r is Some <==> self.has_layer(z_order),
            r matches Some(v) ==> v@.no_duplicates() && forall|k: usize|
                v@.contains(k) <==> self.spec_tile(z_order, k) is Some,
    {
        if z_order < self.sprite_layers.len() {
            match &self.sprite_layers[z_order] {
                Some(layer) => Some(layer.inner.get_tile_indices()),
                None => None,
            }
        } else {
            None
        }
    }

    /// The attributes of the layer at a sprite order for the renderer, over
    /// the area of the dimensions, if there is a layer there.
    pub fn tiles_to_renderer_parts(&self, z: usize, dimensions: Dimension2) -> (r: Option<(Vec<usize>, Vec<Color>)>)
        requires
            self.wf(),
            dimensions.spec_area() <= u32::MAX,
            self.has_layer(z) ==> self.layer(z).inner.attributes_defined(dimensions.spec_area() as usize),
        ensures
            r is Some <==> self.has_layer(z),
            r matches Some(p) ==> self.layer(z).inner.attributes_of(
                dimensions.spec_area() as usize,
                p.0@,
                p.1@,
            ),
    {
        let area = dimensions.area() as usize;
        if z < self.sprite_layers.len() {
            match &self.sprite_layers[z] {
                Some(layer) => Some(layer.inner.tiles_to_attributes(area)),
                None => None,
            }
        } else {
            None
        }
    }

    /// True when every layer of the chunk can hand its attributes to the
    /// renderer over the area of the dimensions.
    pub open spec fn renderable(self, dimensions: Dimension2) -> bool {
        &&& dimensions.spec_area() <= u32::MAX
        &&& forall|z: int|
            0 <= z < self.spec_layers().len() && #[trigger] self.spec_layers()[z] is Some ==> self.spec_layers()[z].unwrap().inner.attributes_defined(
                dimensions.spec_area() as usize,
            )
    }

    /// The attributes of all the layers for the renderer, lowest sprite
    /// order first, over the area of the dimensions.
    pub fn renderer_parts(&self, dimensions: Dimension2) -> (r: (Vec<usize>, Vec<Color>))
        requires
            self.wf(),
            self.renderable(dimensions),
        ensures
            r.0@ == layers_indexes(self.spec_layers(), dimensions.spec_area() as usize),
            r.1@ == layers_colors(self.spec_layers(), dimensions.spec_area() as usize),
    {
        let area = dimensions.area() as usize;
        let mut indexes: Vec<usize> = Vec::new();
        let mut colors: Vec<Color> = Vec::new();
        let mut z: usize = 0;
        while z < self.sprite_layers.len()
            invariant
                z <= self.spec_layers().len(),
                area == dimensions.spec_area(),
                self.wf(),
                self.renderable(dimensions),
                indexes@ == layers_indexes(self.spec_layers().take(z as int), area),
                colors@ == layers_colors(self.spec_layers().take(z as int), area),
            decreases self.spec_layers().len() - z,
        {
            let ghost t1 = self.spec_layers().take(z as int + 1);
            proof {
                assert(t1.drop_last() =~= self.spec_layers().take(z as int));
                assert(t1.last() == self.spec_layers()[z as int]);
            }
            match &self.sprite_layers[z] {
                Some(layer) => {
                    proof {
                        assert(self.spec_layers()[z as int] is Some);
                    }
                    let (mut i, mut c) = layer.inner.tiles_to_attributes(area);
                    indexes.append(&mut i);
                    colors.append(&mut c);
                },
                None => {
                    proof {
                        assert(indexes@ =~= indexes@ + Seq::<usize>::empty());
                        assert(colors@ =~= colors@ + Seq::<Color>::empty());
                    }
                },
            }
            z = z + 1;
        }
        proof {
            assert(self.spec_layers().take(self.spec_layers().len() as int) =~= self.spec_layers());
        }
        (indexes, colors)
    }

    /// Gets a mutable reference to the tile at a sprite order and an index,
    /// if the chunk shows one.
    pub fn get_tile_mut(&mut self, z_order: usize, index: usize) -> (r: Option<&mut RawTile>)
        requires
            old(self).wf(),
        ensures
            final(self).wf(),
            r matches Some(t) ==> old(self).spec_tile(z_order, index) == Some(*t) && old(
                self,
            ).inner_changed(*final(self), z_order) && old(self).layer(
                z_order,
            ).inner.write_tile_gives(final(self).layer(z_order).inner, index, *final(t)),
            r is None ==> old(self).spec_tile(z_order, index) is None && *final(self) == *old(self),
    {
        if z_order < self.sprite_layers.len() && self.sprite_layers[z_order].is_some() {
            if self.sprite_layers[z_order].as_ref().unwrap().inner.get_tile(index).is_none() {
                return None;
            }
            match &mut self.sprite_layers[z_order] {
                Some(layer) => layer.inner.get_tile_mut(index),
                None => None,
            }
        } else {
            None
        }
    }
}

} // verus!
