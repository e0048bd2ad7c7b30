//! The tilemap: chunks of tiles at chunk points, the sprite layers they
//! share, and the events that tell the renderer what to spawn, update and
//! despawn.

use vstd::prelude::*;
use crate::arith::{trunc_div, wrap_i32, wrap_usize, u32_as_i32};
use crate::chunk::{
    Chunk, fresh_layer, lemma_chunk_written_nothing, layers_colors, layers_indexes, moved_layers, removed_layer,
};
use crate::chunk_map::{
    chunks_map, find_chunk, has_point, lemma_chunks_map_entry, lemma_chunks_map_push,
    lemma_chunks_map_remove, lemma_chunks_map_update, lemma_chunks_same_points, points_distinct,
};
use crate::coord::{chunk_coord, chunk_coordinate, local_coord, local_coordinate, local_defined};
use crate::dimension::{Dimension2, DimensionError, ErrorKind};
use crate::index_map::IndexMap;
use crate::layer::{
    LayerKind, LayerKindInner, SpriteLayer, dense_written, lemma_dense_written_len, lemma_last_write_dense,
    lemma_last_write_sparse, sparse_set, sparse_written,
};
use crate::point::{Point2, fits_i32};
use crate::render::GridTopology;
use crate::tile::{AtlasHandle, Color, Entity, RawTile, Tile};

verus! {

/// The kinds of errors that can occur when interacting with the tilemap.
#[derive(Copy, Clone, PartialEq, Eq, Structural, Hash, Debug)]
pub enum TilemapErrorKind {
    /// If the coordinate or index is out of bounds.
    DimensionError(DimensionError),
    /// If a layer already exists this error is returned.
    LayerExists(usize),
    /// If a layer does not already exist this error is returned.
    LayerDoesNotExist(usize),
    /// Texture atlas was not set.
    MissingTextureAtlas,
    /// The chunk does not exist.
    MissingChunk,
    /// The chunk already exists.
    ChunkAlreadyExists(Point2),
}

/// The error type for operations when interacting with the tilemap.
#[derive(Copy, Clone, PartialEq, Eq, Structural, Hash, Debug)]
pub struct TilemapError {
    kind: TilemapErrorKind,
}

impl TilemapError {
    /// The kind that the error was made with.
    pub closed spec fn spec_kind(self) -> TilemapErrorKind {
        self.kind
    }

    /// Creates a new error of a kind.
    pub fn new(kind: TilemapErrorKind) -> (e: TilemapError)
        ensures
            e.spec_kind() == kind,
    {
        TilemapError { kind }
    }

    /// Returns the kind of the error.
    pub fn kind(&self) -> (k: TilemapErrorKind)
        ensures
            k == self.spec_kind(),
    {
        self.kind
    }
}

impl core::convert::From<DimensionError> for TilemapError {
    fn from(err: DimensionError) -> (e: TilemapError) {
        TilemapError { kind: TilemapErrorKind::DimensionError(err) }
    }
}

impl vstd::std_specs::convert::FromSpecImpl<DimensionError> for TilemapError {
    open spec fn obeys_from_spec() -> bool {
        true
    }

    closed spec fn from_spec(err: DimensionError) -> TilemapError {
        TilemapError { kind: TilemapErrorKind::DimensionError(err) }
    }
}

/// A tilemap result.
pub type TilemapResult<T> = Result<T, TilemapError>;

/// Events that can happen to chunks, for the renderer to act on.
#[derive(Clone, Debug)]
pub enum ChunkEvent {
    /// A chunk needs to be spawned.
    Spawned {
        /// The point of the chunk to spawn.
        point: Point2,
    },
    /// A chunk has been modified and needs to reload these layers.
    Modified {
        /// The sprite orders that had been modified, with their entities.
        layers: Vec<(usize, Entity)>,
    },
    /// A chunk needs to be despawned.
    Despawned {
        /// The entities that need to be despawned.
        entities: Vec<Entity>,
    },
}

/// Flags for the automated features of a tilemap.
#[derive(Copy, Clone, PartialEq, Eq, Structural, Hash, Debug)]
pub struct AutoFlags {
    /// Configure the tile and chunk dimensions from the texture atlas.
    pub auto_configure: bool,
    /// Create chunks when tiles are inserted into chunks that do not exist.
    pub auto_chunk: bool,
}

impl AutoFlags {
    /// No automated features.
    pub open spec fn spec_none() -> AutoFlags {
        AutoFlags { auto_configure: false, auto_chunk: false }
    }

    /// No automated features.
    pub fn none() -> (f: AutoFlags)
        ensures
            f == AutoFlags::spec_none(),
    {
        AutoFlags { auto_configure: false, auto_chunk: false }
    }
}

impl Default for AutoFlags {
    fn default() -> (f: AutoFlags)
        ensures
            f == AutoFlags::spec_none(),
    {
        AutoFlags::none()
    }
}

/// The default texture dimensions in pixels.
pub const DEFAULT_TEXTURE_SIZE: u32 = 32;

/// The default chunk dimensions in tiles.
pub const DEFAULT_CHUNK_SIZE: u32 = 32;

/// The default number of sprite layers.
pub const DEFAULT_Z_LAYERS: usize = 20;

/// A Tilemap which maintains chunks and its tiles within.
#[derive(Debug)]
pub struct Tilemap {
    topology: GridTopology,
    dimensions: Option<Dimension2>,
    chunk_dimensions: Dimension2,
    tile_dimensions: Dimension2,
    layers: Vec<Option<LayerKind>>,
    auto_flags: AutoFlags,
    texture_atlas: AtlasHandle,
    chunks: Vec<Chunk>,
    events: Vec<ChunkEvent>,
    spawned: Vec<Point2>,
}

/// `after` is the chunk `c` with a fresh layer of a kind added at a sprite
/// order, as `Chunk::add_layer` makes it: a sprite order past the last
/// layer changes nothing.
pub open spec fn layer_added(c: Chunk, after: Chunk, kind: LayerKind, z: usize, area: int) -> bool {
    &&& after.wf()
    &&& after.spec_point() == c.spec_point()
    &&& after.spec_entity() == c.spec_entity()
    &&& after.spec_layers().len() == c.spec_layers().len()
    &&& z < c.spec_layers().len() ==> (after.spec_layers()[z as int] matches Some(l) && fresh_layer(
        l,
        kind,
        area,
    ))
    &&& forall|k: int|
        0 <= k < c.spec_layers().len() && k != z ==> #[trigger] after.spec_layers()[k]
            == c.spec_layers()[k]
}

impl Tilemap {
    /// The topology of the grid.
    pub closed spec fn spec_topology(self) -> GridTopology {
        self.topology
    }

    /// The dimensions of the tilemap in chunks, if it has them.
    pub closed spec fn spec_dimensions(self) -> Option<Dimension2> {
        self.dimensions
    }

    /// The dimensions of a chunk in tiles.
    pub closed spec fn spec_chunk_dimensions(self) -> Dimension2 {
        self.chunk_dimensions
    }

    /// The dimensions of a tile in pixels.
    pub closed spec fn spec_tile_dimensions(self) -> Dimension2 {
        self.tile_dimensions
    }

    /// The sprite layers, by sprite order.
    pub closed spec fn spec_layers(self) -> Seq<Option<LayerKind>> {
        self.layers@
    }

    /// The flags of the automated features.
    pub closed spec fn spec_auto_flags(self) -> AutoFlags {
        self.auto_flags
    }

    /// The handle of the texture atlas.
    pub closed spec fn spec_texture_atlas(self) -> AtlasHandle {
        self.texture_atlas
    }

    /// The chunks, in the order in which they were inserted.
    pub closed spec fn spec_chunks(self) -> Seq<Chunk> {
        self.chunks@
    }

    /// The events that have not been taken yet, oldest first.
    pub closed spec fn spec_events(self) -> Seq<ChunkEvent> {
        self.events@
    }

    /// The points of the chunks that have been spawned, in the order in
    /// which they were.
    pub closed spec fn spec_spawned(self) -> Seq<Point2> {
        self.spawned@
    }

    /// The chunks by point.
    pub open spec fn spec_chunk_map(self) -> Map<Point2, Chunk> {
        chunks_map(self.spec_chunks())
    }

    /// True when the tilemap has a chunk at a point.
    pub open spec fn has_chunk(self, p: Point2) -> bool {
        self.spec_chunk_map().contains_key(p)
    }

    /// The area of a chunk.
    pub open spec fn chunk_area(self) -> int {
        self.spec_chunk_dimensions().spec_area()
    }

    /// The chunks have distinct points, are well formed, and have one
    /// sprite layer slot per sprite layer of the tilemap.
    pub open spec fn wf(self) -> bool {
        &&& points_distinct(self.spec_chunks())
        &&& forall|i: int|
            0 <= i < self.spec_chunks().len() ==> (#[trigger] self.spec_chunks()[i]).wf()
                && self.spec_chunks()[i].spec_layers().len() == self.spec_layers().len()
    }

    /// The tilemap's settings other than its layers, chunks and events are
    /// those of `other`.
    pub open spec fn same_settings(self, other: Tilemap) -> bool {
        &&& self.spec_topology() == other.spec_topology()
        &&& self.spec_dimensions() == other.spec_dimensions()
        &&& self.spec_chunk_dimensions() == other.spec_chunk_dimensions()
        &&& self.spec_tile_dimensions() == other.spec_tile_dimensions()
        &&& self.spec_auto_flags() == other.spec_auto_flags()
        &&& self.spec_texture_atlas() == other.spec_texture_atlas()
        &&& self.spec_spawned() == other.spec_spawned()
    }

    /// True when a point lies outside the tilemap's dimensions, if it has
    /// them.
    pub open spec fn out_of_bounds(self, p: Point2) -> bool {
        self.spec_dimensions() matches Some(d) && d.spec_out_of_bounds(p)
    }

    /// True when checking a point against the tilemap's dimensions, if it has
    /// them, runs to its end.
    pub open spec fn check_defined(self, p: Point2) -> bool {
        self.spec_dimensions() matches Some(d) ==> d.check_point_defined(p)
    }

    /// True when some sprite layer of the tilemap is dense.
    pub open spec fn has_dense_layer(self) -> bool {
        exists|z: int| 0 <= z < self.spec_layers().len() && self.spec_layers()[z] == Some(LayerKind::Dense)
    }

    /// The tilemap with no dimensions, the default chunk and tile
    /// dimensions, the default number of empty sprite layers and no
    /// chunks, using the given texture atlas.
    pub open spec fn is_default_with(self, atlas: AtlasHandle) -> bool {
        &&& self.wf()
        &&& self.spec_topology() == GridTopology::Square
        &&& self.spec_dimensions() is None
        &&& self.spec_chunk_dimensions() == Dimension2::new_spec(DEFAULT_TEXTURE_SIZE, DEFAULT_TEXTURE_SIZE)
        &&& self.spec_tile_dimensions() == Dimension2::new_spec(DEFAULT_CHUNK_SIZE, DEFAULT_CHUNK_SIZE)
        &&& self.spec_layers() == Seq::new(DEFAULT_Z_LAYERS as nat, |i: int| None::<LayerKind>)
        &&& self.spec_auto_flags() == AutoFlags::spec_none()
        &&& self.spec_texture_atlas() == atlas
        &&& self.spec_chunks().len() == 0
        &&& self.spec_events().len() == 0
        &&& self.spec_spawned().len() == 0
    }

    /// Constructs a new tilemap with the texture atlas and the default
    /// configuration.
    pub fn new(texture_atlas: AtlasHandle) -> (t: Tilemap)
        ensures
            t.is_default_with(texture_atlas),
    {
        let mut layers: Vec<Option<LayerKind>> = Vec::new();
        let mut i: usize = 0;
        while i < DEFAULT_Z_LAYERS
            invariant
                i <= DEFAULT_Z_LAYERS,
                layers@.len() == i,
                forall|k: int| 0 <= k < i ==> layers@[k] is None,
            decreases DEFAULT_Z_LAYERS - i,
        {
            layers.push(None);
            i = i + 1;
        }
        let t = Tilemap {
            topology: GridTopology::Square,
            dimensions: None,
            chunk_dimensions: Dimension2::new(DEFAULT_TEXTURE_SIZE, DEFAULT_TEXTURE_SIZE),
            tile_dimensions: Dimension2::new(DEFAULT_CHUNK_SIZE, DEFAULT_CHUNK_SIZE),
            layers,
            auto_flags: AutoFlags::none(),
            texture_atlas,
            chunks: Vec::new(),
            events: Vec::new(),
            spawned: Vec::new(),
        };
        assert(t.spec_layers() =~= Seq::new(DEFAULT_Z_LAYERS as nat, |i: int| None::<LayerKind>));
        t
    }

    /// Returns a builder with the default settings.
    pub fn builder() -> (b: TilemapBuilder)
        ensures
            b.is_default(),
    {
        TilemapBuilder::new()
    }

    /// Sets the texture atlas for use in the tilemap.
    pub fn set_texture_atlas(&mut self, handle: AtlasHandle)
        requires
            old(self).wf(),
        ensures
            final(self).wf(),
            final(self).spec_texture_atlas() == handle,
            final(self).spec_layers() == old(self).spec_layers(),
            final(self).spec_chunks() == old(self).spec_chunks(),
            final(self).spec_events() == old(self).spec_events(),
            final(self).spec_topology() == old(self).spec_topology(),
            final(self).spec_dimensions() == old(self).spec_dimensions(),
            final(self).spec_chunk_dimensions() == old(self).spec_chunk_dimensions(),
            final(self).spec_tile_dimensions() == old(self).spec_tile_dimensions(),
            final(self).spec_auto_flags() == old(self).spec_auto_flags(),
            final(self).spec_spawned() == old(self).spec_spawned(),
    {
        self.texture_atlas = handle;
    }

    /// Returns the handle of the texture atlas.
    pub fn texture_atlas(&self) -> (h: &AtlasHandle)
        ensures
            *h == self.spec_texture_atlas(),
    {
        &self.texture_atlas
    }

    /// Inserts a new chunk at a point, with a fresh layer for every sprite
    /// layer of the tilemap.
    ///
    /// # Errors
    ///
    /// If the tilemap has dimensions and the point lies outside them, an
    /// error is returned and nothing changes. If a chunk already exists at
    /// the point, an error is returned and the chunk is kept as it is.
    pub fn insert_chunk(&mut self, point: Point2) -> (r: TilemapResult<()>)
        requires
            old(self).wf(),
            old(self).check_defined(point),
            old(self).has_dense_layer() ==> old(self).chunk_area() <= u32::MAX,
        ensures
            final(self).wf(),
            final(self).same_settings(*old(self)),
            final(self).spec_layers() == old(self).spec_layers(),
            final(self).spec_events() == old(self).spec_events(),
            old(self).out_of_bounds(point) ==> (r matches Err(e) && e.spec_kind() matches TilemapErrorKind::DimensionError(
                d,
            ) && d.spec_kind() == ErrorKind::OutOfBounds) && final(self).spec_chunks() == old(
                self,
            ).spec_chunks(),
            !old(self).out_of_bounds(point) && old(self).has_chunk(point) ==> (r matches Err(e) && e.spec_kind()
                == TilemapErrorKind::ChunkAlreadyExists(point)) && final(self).spec_chunks() == old(self).spec_chunks(),
            !old(self).out_of_bounds(point) && !old(self).has_chunk(point) ==> {
                &&& r is Ok
                &&& final(self).has_chunk(point)
                &&& final(self).spec_chunk_map().remove(point) == old(self).spec_chunk_map().remove(point)
                &&& final(self).spec_chunk_map()[point].spec_point() == point
                &&& final(self).spec_chunk_map()[point].spec_layers().len() == old(self).spec_layers().len()
                &&& forall|z: int|
                    0 <= z < old(self).spec_layers().len() ==> match #[trigger] old(self).spec_layers()[z] {
                        Some(kind) => (final(self).spec_chunk_map()[point].spec_layers()[z] matches Some(l)
                            && fresh_layer(l, kind, old(self).chunk_area())),
                        None => final(self).spec_chunk_map()[point].spec_layers()[z] is None,
                    }
            },
    {
        if let Some(dimensions) = &self.dimensions {
            if let Err(e) = dimensions.check_point(point) {
                return Err(TilemapError::new(TilemapErrorKind::DimensionError(e)));
            }
        }
        let ghost s0 = self.chunks@;
        match find_chunk(&self.chunks, point) {
            Some(i) => {
                proof {
                    lemma_chunks_map_entry(s0, i as int);
                }
                Err(TilemapError::new(TilemapErrorKind::ChunkAlreadyExists(point)))
            },
            None => {
                let chunk = Chunk::new(point, self.layers.as_slice(), self.chunk_dimensions);
                proof {
                    lemma_chunks_map_push(s0, chunk);
                }
                self.chunks.push(chunk);
                Ok(())
            },
        }
    }

    /// Returns `true` if the tilemap has a chunk at the point.
    pub fn contains_chunk(&self, point: Point2) -> (b: bool)
        requires
            self.wf(),
        ensures
            b == self.has_chunk(point),
    {
        find_chunk(&self.chunks, point).is_some()
    }

    /// Adds a layer of a kind at a sprite order, to the tilemap and to
    /// every chunk.
    ///
    /// # Errors
    ///
    /// If a layer already exists at the sprite order, an error is returned
    /// and nothing changes. A sprite order past the last layer adds nothing
    /// and is no error.
    pub fn add_layer_with_kind(&mut self, kind: LayerKind, z_order: usize) -> (r: TilemapResult<()>)
        requires
            old(self).wf(),
            kind == LayerKind::Dense && old(self).spec_chunks().len() > 0 ==> old(self).chunk_area() <= u32::MAX,
        ensures
            final(self).wf(),
            final(self).same_settings(*old(self)),
            final(self).spec_events() == old(self).spec_events(),
            final(self).spec_chunks().len() == old(self).spec_chunks().len(),
            r is Err <==> z_order < old(self).spec_layers().len() && old(self).spec_layers()[z_order as int] is Some,
            r matches Err(e) ==> e.spec_kind() == TilemapErrorKind::LayerExists(z_order),
            r is Err ==> final(self).spec_layers() == old(self).spec_layers() && final(self).spec_chunks() == old(self).spec_chunks(),
            r is Ok ==> {
                &&& final(self).spec_layers() == if z_order < old(self).spec_layers().len() {
                    old(self).spec_layers().update(z_order as int, Some(kind))
                } else {
                    old(self).spec_layers()
                }
                &&& final(self).spec_chunk_map().dom() == old(self).spec_chunk_map().dom()
                &&& forall|p: Point2| #[trigger] old(self).has_chunk(p) ==> layer_added(
                    old(self).spec_chunk_map()[p],
                    final(self).spec_chunk_map()[p],
                    kind,
                    z_order,
                    old(self).chunk_area(),
                )
            },
    {
        if z_order < self.layers.len() {
            if self.layers[z_order].is_some() {
                return Err(TilemapError::new(TilemapErrorKind::LayerExists(z_order)));
            }
            self.layers.set(z_order, Some(kind));
        }
        self.add_layer_to_chunks(kind, z_order);
        Ok(())
    }

    /// Adds a fresh layer of a kind at a sprite order to every chunk.
    fn add_layer_to_chunks(&mut self, kind: LayerKind, z_order: usize)
        requires
            points_distinct(old(self).spec_chunks()),
            forall|i: int|
                0 <= i < old(self).spec_chunks().len() ==> (#[trigger] old(self).spec_chunks()[i]).wf(),
            kind == LayerKind::Dense && old(self).spec_chunks().len() > 0 ==> old(self).chunk_area() <= u32::MAX,
        ensures
            final(self).same_settings(*old(self)),
            final(self).spec_layers() == old(self).spec_layers(),
            final(self).spec_events() == old(self).spec_events(),
            final(self).spec_chunks().len() == old(self).spec_chunks().len(),
            forall|i: int|
                0 <= i < old(self).spec_chunks().len() ==> layer_added(
                    #[trigger] old(self).spec_chunks()[i],
                    final(self).spec_chunks()[i],
                    kind,
                    z_order,
                    old(self).chunk_area(),
                ),
            forall|i: int|
                0 <= i < old(self).spec_chunks().len() ==> (#[trigger] final(self).spec_chunks()[i]).wf()
                    && final(self).spec_chunks()[i].spec_layers().len() == old(self).spec_chunks()[i].spec_layers().len(),
            points_distinct(final(self).spec_chunks()),
            final(self).spec_chunk_map().dom() == old(self).spec_chunk_map().dom(),
            forall|p: Point2| #[trigger] old(self).has_chunk(p) ==> layer_added(
                old(self).spec_chunk_map()[p],
                final(self).spec_chunk_map()[p],
                kind,
                z_order,
                old(self).chunk_area(),
            ),
    {
        let ghost s0 = self.chunks@;
        let dims = self.chunk_dimensions;
        let mut i: usize = 0;
        while i < self.chunks.len()
            invariant
                i <= self.chunks@.len(),
                self.chunks@.len() == s0.len(),
                dims == self.chunk_dimensions,
                kind == LayerKind::Dense && s0.len() > 0 ==> dims.spec_area() <= u32::MAX,
                forall|j: int| 0 <= j < s0.len() ==> (#[trigger] s0[j]).wf(),
                forall|j: int| 0 <= j < i ==> layer_added(#[trigger] s0[j], self.chunks@[j], kind, z_order, dims.spec_area()),
                forall|j: int| i <= j < s0.len() ==> #[trigger] self.chunks@[j] == s0[j],
                self.same_settings(*old(self)),
                self.layers@ == old(self).layers@,
                self.events@ == old(self).events@,
                s0 == old(self).chunks@,
            decreases s0.len() - i,
        {
            let c = &mut self.chunks[i];
            c.add_layer(&kind, z_order, dims);
            i = i + 1;
        }
        proof {
            let s1 = self.chunks@;
            assert forall|j: int| 0 <= j < s0.len() implies (#[trigger] s1[j]).spec_point() == s0[j].spec_point() by {
                assert(layer_added(s0[j], s1[j], kind, z_order, dims.spec_area()));
            }
            lemma_chunks_same_points(s0, s1);
            assert forall|j: int| 0 <= j < s0.len() implies (#[trigger] s1[j]).wf()
                && s1[j].spec_layers().len() == s0[j].spec_layers().len() by {
                assert(layer_added(s0[j], s1[j], kind, z_order, dims.spec_area()));
            }
            assert forall|p: Point2| #[trigger] old(self).has_chunk(p) implies layer_added(
                old(self).spec_chunk_map()[p],
                self.spec_chunk_map()[p],
                kind,
                z_order,
                old(self).chunk_area(),
            ) by {
                assert(chunks_map(s0).contains_key(p));
                let j = choose|j: int|
                    0 <= j < s0.len() && chunks_map(s0)[p] == s0[j] && chunks_map(s1)[p] == s1[j];
                assert(layer_added(s0[j], s1[j], kind, z_order, dims.spec_area()));
            }
        }
    }

    /// Adds a dense layer at a sprite order, to the tilemap and to every
    /// chunk.
    ///
    /// # Errors
    ///
    /// If a layer already exists at the sprite order, an error is returned
    /// and nothing changes.
    pub fn add_layer(&mut self, z_layer: usize) -> (r: TilemapResult<()>)
        requires
            old(self).wf(),
            old(self).spec_chunks().len() > 0 ==> old(self).chunk_area() <= u32::MAX,
        ensures
            final(self).wf(),
            final(self).same_settings(*old(self)),
            final(self).spec_events() == old(self).spec_events(),
            final(self).spec_chunks().len() == old(self).spec_chunks().len(),
            r is Err <==> z_layer < old(self).spec_layers().len() && old(self).spec_layers()[z_layer as int] is Some,
            r matches Err(e) ==> e.spec_kind() == TilemapErrorKind::LayerExists(z_layer),
            r is Err ==> final(self).spec_layers() == old(self).spec_layers() && final(self).spec_chunks() == old(self).spec_chunks(),
            r is Ok ==> {
                &&& final(self).spec_layers() == if z_layer < old(self).spec_layers().len() {
                    old(self).spec_layers().update(z_layer as int, Some(LayerKind::Dense))
                } else {
                    old(self).spec_layers()
                }
                &&& final(self).spec_chunk_map().dom() == old(self).spec_chunk_map().dom()
                &&& forall|p: Point2| #[trigger] old(self).has_chunk(p) ==> layer_added(
                    old(self).spec_chunk_map()[p],
                    final(self).spec_chunk_map()[p],
                    LayerKind::Dense,
                    z_layer,
                    old(self).chunk_area(),
                )
            },
    {
        self.add_layer_with_kind(LayerKind::Dense, z_layer)
    }

    /// Each chunk of `after` is the chunk of this tilemap at the same
    /// position with its layers replaced as `f` makes them.
    pub open spec fn chunks_relayered(
        self,
        after: Tilemap,
        f: spec_fn(Seq<Option<SpriteLayer>>) -> Seq<Option<SpriteLayer>>,
    ) -> bool {
        &&& after.spec_chunks().len() == self.spec_chunks().len()
        &&& forall|i: int|
            0 <= i < self.spec_chunks().len() ==> (#[trigger] self.spec_chunks()[i]).with_layers(
                after.spec_chunks()[i],
                f(self.spec_chunks()[i].spec_layers()),
            )
    }

    /// Moves a layer from one sprite order to another, in the tilemap and
    /// in every chunk, tiles included: the layer leaves its old sprite
    /// order empty.
    ///
    /// # Errors
    ///
    /// If a layer exists at the destination, or no layer exists at the
    /// origin, an error is returned and nothing changes.
    pub fn move_layer(&mut self, from_z: usize, to_z: usize) -> (r: TilemapResult<()>)
        requires
            old(self).wf(),
            !(to_z < old(self).spec_layers().len() && old(self).spec_layers()[to_z as int] is Some) && from_z
                < old(self).spec_layers().len() && old(self).spec_layers()[from_z as int] is Some
                ==> to_z < old(self).spec_layers().len(),
        ensures
            final(self).wf(),
            final(self).same_settings(*old(self)),
            final(self).spec_events() == old(self).spec_events(),
            to_z < old(self).spec_layers().len() && old(self).spec_layers()[to_z as int] is Some ==> (r matches Err(
                e,
            ) && e.spec_kind() == TilemapErrorKind::LayerExists(to_z)),
            !(to_z < old(self).spec_layers().len() && old(self).spec_layers()[to_z as int] is Some) && !(from_z
                < old(self).spec_layers().len() && old(self).spec_layers()[from_z as int] is Some) ==> (r matches Err(
                e,
            ) && e.spec_kind() == TilemapErrorKind::LayerDoesNotExist(from_z)),
            r is Ok <==> !(to_z < old(self).spec_layers().len() && old(self).spec_layers()[to_z as int] is Some) && from_z
                < old(self).spec_layers().len() && old(self).spec_layers()[from_z as int] is Some,
            r is Err ==> final(self).spec_layers() == old(self).spec_layers() && final(self).spec_chunks() == old(
                self,
            ).spec_chunks(),
            r is Ok ==> {
                &&& final(self).spec_layers() == moved_layers_of(old(self).spec_layers(), from_z as int, to_z as int)
                &&& old(self).chunks_relayered(
                    *final(self),
                    |ls: Seq<Option<SpriteLayer>>| moved_layers(ls, from_z as int, to_z as int),
                )
            },
    {
        if to_z < self.layers.len() && self.layers[to_z].is_some() {
            return Err(TilemapError::new(TilemapErrorKind::LayerExists(to_z)));
        }
        if from_z >= self.layers.len() || self.layers[from_z].is_none() {
            return Err(TilemapError::new(TilemapErrorKind::LayerDoesNotExist(from_z)));
        }
        let from_layer = self.layers[from_z];
        self.layers.set(from_z, None);
        self.layers.set(to_z, from_layer);
        let ghost s0 = self.chunks@;
        let ghost l1 = self.layers@;
        let ghost f = |ls: Seq<Option<SpriteLayer>>| moved_layers(ls, from_z as int, to_z as int);
        let mut i: usize = 0;
        while i < self.chunks.len()
            invariant
                i <= self.chunks@.len(),
                self.chunks@.len() == s0.len(),
                s0 == old(self).chunks@,
                self.layers@ == l1,
                l1.len() == old(self).layers@.len(),
                self.events@ == old(self).events@,
                self.same_settings(*old(self)),
                old(self).wf(),
                from_z < old(self).layers@.len(),
                to_z < old(self).layers@.len(),
                f == (|ls: Seq<Option<SpriteLayer>>| moved_layers(ls, from_z as int, to_z as int)),
                forall|j: int| 0 <= j < i ==> (#[trigger] s0[j]).with_layers(self.chunks@[j], f(s0[j].spec_layers())),
                forall|j: int| 0 <= j < i ==> (#[trigger] self.chunks@[j]).wf(),
                forall|j: int| i <= j < s0.len() ==> #[trigger] self.chunks@[j] == s0[j],
            decreases s0.len() - i,
        {
            assert(s0[i as int].wf() && s0[i as int].spec_layers().len() == old(self).layers@.len());
            let c = &mut self.chunks[i];
            c.move_layer(from_z, to_z);
            i = i + 1;
        }
        proof {
            assert forall|a: int, b: int|
                0 <= a < self.chunks@.len() && 0 <= b < self.chunks@.len() && a != b implies self.chunks@[a].spec_point()
                != self.chunks@[b].spec_point() by {
                assert(s0[a].with_layers(self.chunks@[a], f(s0[a].spec_layers())));
                assert(s0[b].with_layers(self.chunks@[b], f(s0[b].spec_layers())));
            }
            assert forall|j: int| 0 <= j < self.chunks@.len() implies (#[trigger] self.chunks@[j]).wf()
                && self.chunks@[j].spec_layers().len() == self.layers@.len() by {
                assert(s0[j].with_layers(self.chunks@[j], f(s0[j].spec_layers())));
            }
        }
        Ok(())
    }

    /// Removes the layer at a sprite order from the tilemap and from every
    /// chunk, with its tiles; does nothing if the sprite order is past the
    /// last layer.
    pub fn remove_layer(&mut self, z: usize)
        requires
            old(self).wf(),
        ensures
            final(self).wf(),
            final(self).same_settings(*old(self)),
            final(self).spec_events() == old(self).spec_events(),
            final(self).spec_layers() == if z < old(self).spec_layers().len() {
                old(self).spec_layers().update(z as int, None)
            } else {
                old(self).spec_layers()
            },
            old(self).chunks_relayered(*final(self), |ls: Seq<Option<SpriteLayer>>| removed_layer(ls, z as int)),
    {
        let ghost s0 = self.chunks@;
        let ghost f = |ls: Seq<Option<SpriteLayer>>| removed_layer(ls, z as int);
        if z < self.layers.len() {
            self.layers.set(z, None);
        } else {
            assert forall|j: int| 0 <= j < s0.len() implies (#[trigger] s0[j]).with_layers(s0[j], f(s0[j].spec_layers())) by {
                assert(s0[j].spec_layers().len() == old(self).layers@.len());
            }
            return;
        }
        let ghost l1 = self.layers@;
        let mut i: usize = 0;
        while i < self.chunks.len()
            invariant
                i <= self.chunks@.len(),
                self.chunks@.len() == s0.len(),
                s0 == old(self).chunks@,
                self.layers@ == l1,
                l1.len() == old(self).layers@.len(),
                self.events@ == old(self).events@,
                self.same_settings(*old(self)),
                old(self).wf(),
                f == (|ls: Seq<Option<SpriteLayer>>| removed_layer(ls, z as int)),
                forall|j: int| 0 <= j < i ==> (#[trigger] s0[j]).with_layers(self.chunks@[j], f(s0[j].spec_layers())),
                forall|j: int| 0 <= j < i ==> (#[trigger] self.chunks@[j]).wf(),
                forall|j: int| i <= j < s0.len() ==> #[trigger] self.chunks@[j] == s0[j],
            decreases s0.len() - i,
        {
            assert(s0[i as int].wf() && s0[i as int].spec_layers().len() == old(self).layers@.len());
            let c = &mut self.chunks[i];
            c.remove_layer(z);
            i = i + 1;
        }
        proof {
            assert forall|a: int, b: int|
                0 <= a < self.chunks@.len() && 0 <= b < self.chunks@.len() && a != b implies self.chunks@[a].spec_point()
                != self.chunks@[b].spec_point() by {
                assert(s0[a].with_layers(self.chunks@[a], f(s0[a].spec_layers())));
                assert(s0[b].with_layers(self.chunks@[b], f(s0[b].spec_layers())));
            }
            assert forall|j: int| 0 <= j < self.chunks@.len() implies (#[trigger] self.chunks@[j]).wf()
                && self.chunks@[j].spec_layers().len() == self.layers@.len() by {
                assert(s0[j].with_layers(self.chunks@[j], f(s0[j].spec_layers())));
            }
        }
    }

    /// Checks a point against the dimensions of the tilemap, if it has
    /// them.
    fn check_point(&self, point: Point2) -> (r: TilemapResult<()>)
        requires
            self.check_defined(point),
        ensures
            r is Err <==> self.out_of_bounds(point),
            r matches Err(e) ==> (e.spec_kind() matches TilemapErrorKind::DimensionError(d) && d.spec_kind()
                == ErrorKind::OutOfBounds),
    {
        if let Some(dimensions) = &self.dimensions {
            if let Err(e) = dimensions.check_point(point) {
                return Err(TilemapError::new(TilemapErrorKind::DimensionError(e)));
            }
        }
        Ok(())
    }

    /// Asks for the chunk at a point to be spawned; nothing happens if no
    /// chunk exists there.
    ///
    /// # Errors
    ///
    /// If the tilemap has dimensions and the point lies outside them, an
    /// error is returned and nothing changes.
    pub fn spawn_chunk(&mut self, point: Point2) -> (r: TilemapResult<()>)
        requires
            old(self).wf(),
            old(self).check_defined(point),
        ensures
            final(self).wf(),
            final(self).same_settings(*old(self)),
            final(self).spec_layers() == old(self).spec_layers(),
            final(self).spec_chunks() == old(self).spec_chunks(),
            r is Err <==> old(self).out_of_bounds(point),
            r matches Err(e) ==> (e.spec_kind() matches TilemapErrorKind::DimensionError(d) && d.spec_kind()
                == ErrorKind::OutOfBounds),
            r is Err || !old(self).has_chunk(point) ==> final(self).spec_events() == old(self).spec_events(),
            r is Ok && old(self).has_chunk(point) ==> final(self).spec_events() == old(self).spec_events().push(
                ChunkEvent::Spawned { point },
            ),
    {
        self.check_point(point)?;
        if self.contains_chunk(point) {
            self.events.push(ChunkEvent::Spawned { point });
        }
        Ok(())
    }

    /// Asks for the chunk that contains a tile point to be spawned.
    ///
    /// # Errors
    ///
    /// If the tilemap has dimensions and the chunk point lies outside them,
    /// an error is returned and nothing changes.
    pub fn spawn_chunk_containing_point(&mut self, point: Point2) -> (r: TilemapResult<()>)
        requires
            old(self).wf(),
            old(self).check_defined(old(self).spec_chunk_point(point)),
        ensures
            final(self).wf(),
            final(self).same_settings(*old(self)),
            final(self).spec_layers() == old(self).spec_layers(),
            final(self).spec_chunks() == old(self).spec_chunks(),
            r is Err <==> old(self).out_of_bounds(old(self).spec_chunk_point(point)),
            r is Err || !old(self).has_chunk(old(self).spec_chunk_point(point)) ==> final(self).spec_events()
                == old(self).spec_events(),
            r is Ok && old(self).has_chunk(old(self).spec_chunk_point(point)) ==> final(self).spec_events() == old(
                self,
            ).spec_events().push(ChunkEvent::Spawned { point: old(self).spec_chunk_point(point) }),
    {
        let (x, y) = self.point_to_chunk_point(point);
        self.spawn_chunk(Point2::new(x, y))
    }

    /// Asks for the layers of the chunk at a point to be despawned, if the
    /// chunk exists.
    ///
    /// # Errors
    ///
    /// If the tilemap has dimensions and the point lies outside them, an
    /// error is returned and nothing changes.
    pub fn despawn_chunk(&mut self, point: Point2) -> (r: TilemapResult<()>)
        requires
            old(self).wf(),
            old(self).check_defined(point),
        ensures
            final(self).wf(),
            final(self).same_settings(*old(self)),
            final(self).spec_layers() == old(self).spec_layers(),
            final(self).spec_chunks() == old(self).spec_chunks(),
            r is Err <==> old(self).out_of_bounds(point),
            r matches Err(e) ==> (e.spec_kind() matches TilemapErrorKind::DimensionError(d) && d.spec_kind()
                == ErrorKind::OutOfBounds),
            r is Err || !old(self).has_chunk(point) ==> final(self).spec_events() == old(self).spec_events(),
            r is Ok && old(self).has_chunk(point) ==> {
                &&& final(self).spec_events().len() == old(self).spec_events().len() + 1
                &&& final(self).spec_events().drop_last() == old(self).spec_events()
                &&& final(self).spec_events().last() matches ChunkEvent::Despawned { entities }
                &&& entities@ == old(self).spec_chunk_map()[point].all_entities()
            },
    {
        self.check_point(point)?;
        if let Some(i) = find_chunk(&self.chunks, point) {
            proof {
                lemma_chunks_map_entry(self.chunks@, i as int);
            }
            let entities = self.chunks[i].get_entities();
            self.events.push(ChunkEvent::Despawned { entities });
            assert(self.events@.drop_last() =~= old(self).events@);
        }
        Ok(())
    }

    /// Despawns and removes the chunk at a point, if it exists.
    ///
    /// # Errors
    ///
    /// If the tilemap has dimensions and the point lies outside them, an
    /// error is returned and nothing changes.
    pub fn remove_chunk(&mut self, point: Point2) -> (r: TilemapResult<()>)
        requires
            old(self).wf(),
            old(self).check_defined(point),
        ensures
            final(self).wf(),
            final(self).same_settings(*old(self)),
            final(self).spec_layers() == old(self).spec_layers(),
            r is Err <==> old(self).out_of_bounds(point),
            r matches Err(e) ==> (e.spec_kind() matches TilemapErrorKind::DimensionError(d) && d.spec_kind()
                == ErrorKind::OutOfBounds),
            r is Err ==> final(self).spec_chunks() == old(self).spec_chunks() && final(self).spec_events() == old(self).spec_events(),
            r is Ok ==> final(self).spec_chunk_map() == old(self).spec_chunk_map().remove(point),
            r is Ok && !old(self).has_chunk(point) ==> final(self).spec_events() == old(self).spec_events(),
            r is Ok && old(self).has_chunk(point) ==> {
                &&& final(self).spec_events().len() == old(self).spec_events().len() + 1
                &&& final(self).spec_events().drop_last() == old(self).spec_events()
                &&& final(self).spec_events().last() matches ChunkEvent::Despawned { entities }
                &&& entities@ == old(self).spec_chunk_map()[point].all_entities()
            },
    {
        self.despawn_chunk(point)?;
        if let Some(i) = find_chunk(&self.chunks, point) {
            proof {
                lemma_chunks_map_remove(self.chunks@, i as int);
            }
            self.chunks.remove(i);
        } else {
            assert(self.spec_chunk_map() =~= old(self).spec_chunk_map().remove(point));
        }
        Ok(())
    }

    /// The chunk point of a tile point.
    pub open spec fn spec_chunk_point(self, point: Point2) -> Point2 {
        Point2 {
            x: chunk_coord(point.x as int, self.spec_chunk_dimensions().width) as i32,
            y: chunk_coord(point.y as int, self.spec_chunk_dimensions().height) as i32,
        }
    }

    /// Takes a tile point and changes it into the point of the chunk that
    /// contains it: chunks are centered on the multiples of the chunk
    /// dimensions.
    pub fn point_to_chunk_point(&self, point: Point2) -> (r: (i32, i32))
        ensures
            r.0 == chunk_coord(point.x as int, self.spec_chunk_dimensions().width),
            r.1 == chunk_coord(point.y as int, self.spec_chunk_dimensions().height),
    {
        let x = chunk_coordinate(point.x, self.chunk_dimensions.width);
        let y = chunk_coordinate(point.y, self.chunk_dimensions.height);
        (x, y)
    }

    /// The center tile, if the tilemap has dimensions.
    pub fn center_tile_coord(&self) -> (r: Option<(i32, i32)>)
        requires
            self.spec_dimensions() matches Some(d) ==> (d.width / 2) * self.spec_chunk_dimensions().width
                <= u32::MAX && (d.height / 2) * self.spec_chunk_dimensions().height <= u32::MAX,
        ensures
            r is Some <==> self.spec_dimensions() is Some,
            r matches Some(c) ==> c.0 == wrap_i32((self.spec_dimensions()->0.width / 2) * self.spec_chunk_dimensions().width)
                && c.1 == wrap_i32((self.spec_dimensions()->0.height / 2) * self.spec_chunk_dimensions().height),
    {
        match self.dimensions {
            Some(dimensions) => Some((
                u32_as_i32(dimensions.width / 2 * self.chunk_dimensions.width),
                u32_as_i32(dimensions.height / 2 * self.chunk_dimensions.height),
            )),
            None => None,
        }
    }

    /// The width of the tilemap in chunks, if it has dimensions.
    pub fn width(&self) -> (r: Option<u32>)
        ensures
            r == match self.spec_dimensions() {
                Some(d) => Some(d.width),
                None => None::<u32>,
            },
    {
        match self.dimensions {
            Some(d) => Some(d.width),
            None => None,
        }
    }

    /// The height of the tilemap in chunks, if it has dimensions.
    pub fn height(&self) -> (r: Option<u32>)
        ensures
            r == match self.spec_dimensions() {
                Some(d) => Some(d.height),
                None => None::<u32>,
            },
    {
        match self.dimensions {
            Some(d) => Some(d.height),
            None => None,
        }
    }

    /// The width of all the chunks in tiles.
    pub fn chunk_width(&self) -> (r: u32)
        ensures
            r == self.spec_chunk_dimensions().width,
    {
        self.chunk_dimensions.width
    }

    /// The height of all the chunks in tiles.
    pub fn chunk_height(&self) -> (r: u32)
        ensures
            r == self.spec_chunk_dimensions().height,
    {
        self.chunk_dimensions.height
    }

    /// The width of a tile in pixels.
    pub fn tile_width(&self) -> (r: u32)
        ensures
            r == self.spec_tile_dimensions().width,
    {
        self.tile_dimensions.width
    }

    /// The height of a tile in pixels.
    pub fn tile_height(&self) -> (r: u32)
        ensures
            r == self.spec_tile_dimensions().height,
    {
        self.tile_dimensions.height
    }

    /// The topology of the tilemap grid.
    pub fn topology(&self) -> (t: GridTopology)
        ensures
            t == self.spec_topology(),
    {
        self.topology
    }

    /// Returns a copy of the chunk dimensions.
    pub fn chunk_dimensions(&self) -> (d: Dimension2)
        ensures
            d == self.spec_chunk_dimensions(),
    {
        self.chunk_dimensions
    }

    /// Returns a copy of the tile dimensions.
    pub fn tile_dimensions(&self) -> (d: Dimension2)
        ensures
            d == self.spec_tile_dimensions(),
    {
        self.tile_dimensions
    }

    /// Returns the flags of the automated features.
    pub fn auto_flags(&self) -> (f: AutoFlags)
        ensures
            f == self.spec_auto_flags(),
    {
        self.auto_flags
    }

    /// The number of sprite layer slots.
    pub fn layer_count(&self) -> (n: usize)
        ensures
            n == self.spec_layers().len(),
    {
        self.layers.len()
    }

    /// Gets a reference to the chunk at a point.
    pub fn get_chunk(&self, point: Point2) -> (r: Option<&Chunk>)
        requires
            self.wf(),
        ensures
            r is Some <==> self.has_chunk(point),
            r matches Some(c) ==> *c == self.spec_chunk_map()[point],
    {
        match find_chunk(&self.chunks, point) {
            Some(i) => {
                proof {
                    lemma_chunks_map_entry(self.chunks@, i as int);
                }
                Some(&self.chunks[i])
            },
            None => None,
        }
    }

    /// Takes the events that have not been taken yet, oldest first.
    pub fn take_events(&mut self) -> (r: Vec<ChunkEvent>)
        requires
            old(self).wf(),
        ensures
            final(self).wf(),
            r@ == old(self).spec_events(),
            final(self).spec_events().len() == 0,
            final(self).same_settings(*old(self)),
            final(self).spec_layers() == old(self).spec_layers(),
            final(self).spec_chunks() == old(self).spec_chunks(),
    {
        let mut taken: Vec<ChunkEvent> = Vec::new();
        std::mem::swap(&mut taken, &mut self.events);
        taken
    }
}

impl Tilemap {
    /// The point of a tile inside the chunk that contains it.
    pub open spec fn spec_local_point(self, p: Point2) -> Point2 {
        Point2 {
            x: local_coord(p.x as int, self.spec_chunk_dimensions().width) as i32,
            y: local_coord(p.y as int, self.spec_chunk_dimensions().height) as i32,
        }
    }

    /// The index of a tile inside the chunk that contains it.
    pub open spec fn spec_local_index(self, p: Point2) -> usize {
        wrap_usize(self.spec_chunk_dimensions().spec_encode(self.spec_local_point(p))) as usize
    }

    /// True when placing a tile point in its chunk stays in `i32`.
    pub open spec fn local_point_defined(self, p: Point2) -> bool {
        &&& local_defined(p.x as int, self.spec_chunk_dimensions().width)
        &&& local_defined(p.y as int, self.spec_chunk_dimensions().height)
    }

    /// True when the index of a tile point in its chunk can be computed.
    pub open spec fn local_index_defined(self, p: Point2) -> bool {
        self.local_point_defined(p) && self.spec_chunk_dimensions().encode_defined(self.spec_local_point(p))
    }

    /// The tile that the tilemap shows at a tile point and a sprite order.
    pub open spec fn spec_tile_at(self, p: Point2, z: usize) -> Option<RawTile> {
        let cp = self.spec_chunk_point(p);
        if self.has_chunk(cp) {
            self.spec_chunk_map()[cp].spec_tile(z, self.spec_local_index(p))
        } else {
            None
        }
    }

    /// Every tile up to and including the `i`th has a layer slot.
    pub open spec fn slots_reached(self, tiles: Seq<Tile>, i: int) -> bool {
        forall|j: int| 0 <= j <= i ==> (#[trigger] tiles[j]).sprite_order < self.spec_layers().len()
    }

    /// Every tile has a layer slot.
    pub open spec fn all_slots(self, tiles: Seq<Tile>) -> bool {
        forall|j: int| 0 <= j < tiles.len() ==> (#[trigger] tiles[j]).sprite_order < self.spec_layers().len()
    }

    /// Some tile is on a sprite order.
    pub open spec fn used(tiles: Seq<Tile>, z: int) -> bool {
        exists|j: int| 0 <= j < tiles.len() && (#[trigger] tiles[j]).sprite_order == z
    }

    /// The sprite layers once a dense layer has been added wherever a tile
    /// is on a sprite order without a layer.
    pub open spec fn layers_after(self, tiles: Seq<Tile>) -> Seq<Option<LayerKind>> {
        Seq::new(
            self.spec_layers().len(),
            |z: int|
                if self.spec_layers()[z] is None && Tilemap::used(tiles, z) {
                    Some(LayerKind::Dense)
                } else {
                    self.spec_layers()[z]
                },
        )
    }

    /// Some tile is on a sprite order that has a slot but no layer.
    pub open spec fn needs_new_layer(self, tiles: Seq<Tile>) -> bool {
        exists|j: int|
            0 <= j < tiles.len() && (#[trigger] tiles[j]).sprite_order < self.spec_layers().len()
                && self.spec_layers()[tiles[j].sprite_order as int] is None
    }

    /// Inserting the tiles may fill dense layers of the chunk area.
    pub open spec fn fills_dense(self, tiles: Seq<Tile>) -> bool {
        ||| self.needs_new_layer(tiles) && self.spec_chunks().len() > 0
        ||| self.spec_auto_flags().auto_chunk && (self.has_dense_layer() || self.needs_new_layer(tiles))
    }

    /// The write that a tile makes in its chunk: its sprite order, its
    /// point in the chunk and its raw tile.
    pub open spec fn write_of(self, t: Tile) -> (usize, Point2, RawTile) {
        (t.sprite_order, self.spec_local_point(t.point), t.spec_raw())
    }

    /// The writes of the tiles that fall in the chunk at a point, in order.
    pub open spec fn writes_to(self, tiles: Seq<Tile>, p: Point2) -> Seq<(usize, Point2, RawTile)>
        decreases tiles.len(),
    {
        if tiles.len() == 0 {
            Seq::empty()
        } else {
            let rest = self.writes_to(tiles.drop_last(), p);
            if self.spec_chunk_point(tiles.last().point) == p {
                rest.push(self.write_of(tiles.last()))
            } else {
                rest
            }
        }
    }

    /// The writes with the points in the chunk encoded as indexes.
    pub open spec fn indexed(self, ws: Seq<(usize, Point2, RawTile)>) -> Seq<(usize, usize, RawTile)> {
        Seq::new(
            ws.len(),
            |k: int|
                (
                    ws[k].0,
                    wrap_usize(self.spec_chunk_dimensions().spec_encode(ws[k].1)) as usize,
                    ws[k].2,
                ),
        )
    }

    /// The chunk points of the tiles, each once, in the order in which they
    /// first occur.
    pub open spec fn chunk_points_of(self, tiles: Seq<Tile>) -> Seq<Point2>
        decreases tiles.len(),
    {
        if tiles.len() == 0 {
            Seq::empty()
        } else {
            let rest = self.chunk_points_of(tiles.drop_last());
            let p = self.spec_chunk_point(tiles.last().point);
            if rest.contains(p) {
                rest
            } else {
                rest.push(p)
            }
        }
    }

    /// `c` is the chunk at `p` with a fresh dense layer wherever the tiles
    /// add a layer to the tilemap.
    pub open spec fn refreshed(self, tiles: Seq<Tile>, p: Point2, c: Chunk) -> bool {
        let old_c = self.spec_chunk_map()[p];
        &&& c.wf()
        &&& c.spec_point() == p
        &&& c.spec_entity() == old_c.spec_entity()
        &&& c.spec_layers().len() == old_c.spec_layers().len()
        &&& forall|z: int|
            #![trigger c.spec_layers()[z]]
            0 <= z < old_c.spec_layers().len() ==> if self.spec_layers()[z] is None && Tilemap::used(tiles, z) {
                c.spec_layers()[z] matches Some(l) && fresh_layer(l, LayerKind::Dense, self.chunk_area())
            } else {
                c.spec_layers()[z] == old_c.spec_layers()[z]
            }
    }

    /// `b` is the chunk at `p` that the tiles are written into: the chunk
    /// that was there with the new layers added, or else a new chunk with a
    /// fresh layer for every layer of the tilemap.
    pub open spec fn base_chunk(self, tiles: Seq<Tile>, p: Point2, b: Chunk) -> bool {
        if self.has_chunk(p) {
            self.refreshed(tiles, p, b)
        } else {
            &&& b.wf()
            &&& b.spec_point() == p
            &&& b.spec_entity() is None
            &&& b.spec_layers().len() == self.spec_layers().len()
            &&& forall|z: int|
                0 <= z < self.spec_layers().len() ==> match #[trigger] self.layers_after(tiles)[z] {
                    Some(kind) => (b.spec_layers()[z] matches Some(l) && fresh_layer(l, kind, self.chunk_area())),
                    None => b.spec_layers()[z] is None,
                }
        }
    }

    /// Adds the layers that the tiles need and sorts the writes of the
    /// tiles by chunk point, in the order in which the points first occur.
    fn prepare_tiles(&mut self, tiles: &Vec<Tile>) -> (r: TilemapResult<(Vec<Point2>, Vec<Vec<(usize, Point2, RawTile)>>)>)
        requires
            old(self).wf(),
            forall|i: int|
                0 <= i < tiles@.len() && old(self).slots_reached(tiles@, i) ==> old(self).local_point_defined(
                    #[trigger] tiles@[i].point,
                ),
            old(self).fills_dense(tiles@) ==> old(self).chunk_area() <= u32::MAX,
        ensures
            final(self).wf(),
            final(self).same_settings(*old(self)),
            final(self).spec_events() == old(self).spec_events(),
            final(self).spec_chunk_map().dom() == old(self).spec_chunk_map().dom(),
            r is Err <==> !old(self).all_slots(tiles@),
            r matches Err(e) ==> exists|i: int|
                0 <= i < tiles@.len() && e.spec_kind() == TilemapErrorKind::LayerDoesNotExist(
                    (#[trigger] tiles@[i]).sprite_order,
                ) && tiles@[i].sprite_order >= old(self).spec_layers().len() && old(self).slots_reached(tiles@, i - 1)
                    && final(self).spec_layers() == old(self).layers_after(tiles@.take(i)) && forall|p: Point2|
                    #[trigger] old(self).has_chunk(p) ==> old(self).refreshed(tiles@.take(i), p, final(self).spec_chunk_map()[p]),
            r matches Ok(g) ==> {
                &&& final(self).spec_layers() == old(self).layers_after(tiles@)
                &&& forall|p: Point2| #[trigger] old(self).has_chunk(p) ==> old(self).refreshed(tiles@, p, final(self).spec_chunk_map()[p])
                &&& g.0@ == old(self).chunk_points_of(tiles@)
                &&& g.0@.no_duplicates()
                &&& g.1@.len() == g.0@.len()
                &&& forall|k: int| 0 <= k < g.0@.len() ==> (#[trigger] g.1@[k])@ == old(self).writes_to(tiles@, g.0@[k])
            },
    {
        let ghost o = *old(self);
        let ghost t = tiles@;
        let mut points: Vec<Point2> = Vec::new();
        let mut writes: Vec<Vec<(usize, Point2, RawTile)>> = Vec::new();
        let mut i: usize = 0;
        proof {
            assert(t.take(0) =~= Seq::<Tile>::empty());
            assert(o.layers_after(t.take(0)) =~= o.spec_layers());
            assert forall|p: Point2| #[trigger] o.has_chunk(p) implies o.refreshed(t.take(0), p, self.spec_chunk_map()[p]) by {
                let c = o.spec_chunk_map()[p];
                let j = choose|j: int| 0 <= j < o.spec_chunks().len() && o.spec_chunks()[j].spec_point() == p;
                lemma_chunks_map_entry(o.spec_chunks(), j);
            }
        }
        while i < tiles.len()
            invariant
                i <= t.len(),
                t == tiles@,
                o == *old(self),
                o.wf(),
                forall|j: int|
                    0 <= j < t.len() && o.slots_reached(t, j) ==> o.local_point_defined(#[trigger] t[j].point),
                o.fills_dense(t) ==> o.chunk_area() <= u32::MAX,
                o.slots_reached(t, i - 1),
                self.wf(),
                self.same_settings(o),
                self.spec_events() == o.spec_events(),
                self.spec_chunks().len() == o.spec_chunks().len(),
                self.spec_layers() == o.layers_after(t.take(i as int)),
                self.spec_chunk_map().dom() == o.spec_chunk_map().dom(),
                forall|p: Point2| #[trigger] o.has_chunk(p) ==> o.refreshed(t.take(i as int), p, self.spec_chunk_map()[p]),
                points@ == o.chunk_points_of(t.take(i as int)),
                points@.no_duplicates(),
                writes@.len() == points@.len(),
                forall|k: int| 0 <= k < points@.len() ==> (#[trigger] writes@[k])@ == o.writes_to(t.take(i as int), points@[k]),
            decreases t.len() - i,
        {
            let tile = tiles[i];
            let z = tile.sprite_order;
            let ghost t0 = t.take(i as int);
            let ghost t1 = t.take(i as int + 1);
            proof {
                assert(t1.drop_last() =~= t0);
                assert(t1.last() == tile);
                assert forall|y: int| #[trigger] Tilemap::used(t1, y) <==> Tilemap::used(t0, y) || tile.sprite_order == y by {
                    if Tilemap::used(t1, y) {
                        let j = choose|j: int| 0 <= j < t1.len() && t1[j].sprite_order == y;
                        if j < i {
                            assert(t0[j] == t1[j]);
                        }
                    }
                    if Tilemap::used(t0, y) {
                        let j = choose|j: int| 0 <= j < t0.len() && t0[j].sprite_order == y;
                        assert(t1[j] == t0[j]);
                    }
                    if tile.sprite_order == y {
                        assert(t1[i as int] == tile);
                    }
                }
            }
            if z < self.layers.len() {
                if self.layers[z].is_none() {
                    proof {
                        assert(t[i as int].sprite_order < o.spec_layers().len() && o.spec_layers()[t[i as int].sprite_order as int] is None);
                        assert(o.needs_new_layer(t));
                    }
                    let ghost mid = *self;
                    let r = self.add_layer(z);
                    match r {
                        Err(e) => {
                            return Err(e);
                        },
                        Ok(()) => {},
                    }
                    proof {
                        assert(self.spec_layers() =~= o.layers_after(t1));
                        assert forall|p: Point2| #[trigger] o.has_chunk(p) implies o.refreshed(t1, p, self.spec_chunk_map()[p]) by {
                            assert(mid.has_chunk(p));
                            let c0 = o.spec_chunk_map()[p];
                            let cm = mid.spec_chunk_map()[p];
                            let c1 = self.spec_chunk_map()[p];
                            assert(o.refreshed(t0, p, cm));
                            assert(layer_added(cm, c1, LayerKind::Dense, z, mid.chunk_area()));
                            lemma_chunk_of(o, p);
                            lemma_chunk_of(mid, p);
                            lemma_chunk_of(*self, p);
                            assert forall|y: int| 0 <= y < c0.spec_layers().len() implies if o.spec_layers()[y] is None
                                && Tilemap::used(t1, y) {
                                #[trigger] c1.spec_layers()[y] matches Some(l) && fresh_layer(l, LayerKind::Dense, o.chunk_area())
                            } else {
                                c1.spec_layers()[y] == c0.spec_layers()[y]
                            } by {
                                assert(o.spec_layers().len() == mid.spec_layers().len());
                                assert(mid.spec_layers()[y] == o.layers_after(t0)[y]);
                                if y != z as int {
                                    assert(c1.spec_layers()[y] == cm.spec_layers()[y]);
                                    assert(Tilemap::used(t1, y) == Tilemap::used(t0, y));
                                } else {
                                    assert(mid.spec_layers()[y] is None);
                                    assert(o.spec_layers()[y] is None);
                                    assert(Tilemap::used(t1, y));
                                    assert(mid.chunk_area() == o.chunk_area());
                                }
                            }
                        }
                    }
                } else {
                    proof {
                        assert(self.spec_layers() =~= o.layers_after(t1)) by {
                            assert forall|y: int| 0 <= y < o.spec_layers().len() implies #[trigger] o.layers_after(t1)[y]
                                == o.layers_after(t0)[y] by {
                                if y == z as int && o.spec_layers()[y] is None {
                                    assert(Tilemap::used(t0, y));
                                }
                            }
                        }
                        assert forall|p: Point2| #[trigger] o.has_chunk(p) implies o.refreshed(t1, p, self.spec_chunk_map()[p]) by {
                            let c0 = o.spec_chunk_map()[p];
                            let c1 = self.spec_chunk_map()[p];
                            assert(o.refreshed(t0, p, c1));
                            lemma_chunk_of(o, p);
                            lemma_chunk_of(*self, p);
                            assert forall|y: int| 0 <= y < c0.spec_layers().len() implies if o.spec_layers()[y] is None
                                && Tilemap::used(t1, y) {
                                #[trigger] c1.spec_layers()[y] matches Some(l) && fresh_layer(l, LayerKind::Dense, o.chunk_area())
                            } else {
                                c1.spec_layers()[y] == c0.spec_layers()[y]
                            } by {
                                assert(self.spec_layers()[y] == o.layers_after(t0)[y]);
                                if y == z as int {
                                    assert(self.spec_layers()[y] is Some);
                                    if o.spec_layers()[y] is None {
                                        assert(Tilemap::used(t0, y));
                                    }
                                } else {
                                    assert(Tilemap::used(t1, y) == Tilemap::used(t0, y));
                                }
                                assert((o.spec_layers()[y] is None && Tilemap::used(t1, y)) == (o.spec_layers()[y] is None
                                    && Tilemap::used(t0, y)));
                                if !(o.spec_layers()[y] is None && Tilemap::used(t0, y)) {
                                    assert(c1.spec_layers()[y] == c0.spec_layers()[y]);
                                }
                            }
                        }
                    }
                }
            } else {
                proof {
                    assert(t.take(i as int) == t0);
                }
                return Err(TilemapError::new(TilemapErrorKind::LayerDoesNotExist(z)));
            }
            proof {
                assert(o.slots_reached(t, i as int));
            }
            let (cx, cy) = self.point_to_chunk_point(tile.point);
            let lx = local_coordinate(tile.point.x, cx, self.chunk_dimensions.width);
            let ly = local_coordinate(tile.point.y, cy, self.chunk_dimensions.height);
            let cp = Point2::new(cx, cy);
            let w = (z, Point2::new(lx, ly), RawTile { index: tile.sprite_index, color: tile.tint });
            proof {
                assert(cp == o.spec_chunk_point(tile.point));
                assert(w == o.write_of(tile));
            }
            let mut g: usize = 0;
            let mut found = false;
            while g < points.len() && !found
                invariant
                    g <= points@.len(),
                    found ==> g < points@.len() && points@[g as int] == cp,
                    !found ==> forall|k: int| 0 <= k < g ==> points@[k] != cp,
                decreases points@.len() - g + if found { 0int } else { 1int },
            {
                if points[g] == cp {
                    found = true;
                } else {
                    g = g + 1;
                }
            }
            let ghost ps0 = points@;
            proof {
                if !found {
                    assert(!ps0.contains(cp)) by {
                        if ps0.contains(cp) {
                            let k = choose|k: int| 0 <= k < ps0.len() && ps0[k] == cp;
                            assert(ps0[k] != cp);
                        }
                    }
                }
            }
            let ghost ws0 = writes@;
            if found {
                let wg = &mut writes[g];
                wg.push(w);
                proof {
                    assert(ps0.contains(cp)) by {
                        assert(ps0[g as int] == cp);
                    }
                    assert(points@ =~= o.chunk_points_of(t1));
                    assert forall|k: int| 0 <= k < points@.len() implies (#[trigger] writes@[k])@ == o.writes_to(t1, points@[k]) by {
                        if k == g as int {
                            assert(writes@[k]@ == ws0[k]@.push(w));
                        } else {
                            assert(writes@[k] == ws0[k]);
                            assert(points@[k] != cp);
                        }
                    }
                }
            } else {
                points.push(cp);
                let mut v: Vec<(usize, Point2, RawTile)> = Vec::new();
                v.push(w);
                writes.push(v);
                proof {
                    assert(points@ =~= o.chunk_points_of(t1));
                    assert forall|k: int| 0 <= k < points@.len() implies (#[trigger] writes@[k])@ == o.writes_to(t1, points@[k]) by {
                        if k < ps0.len() {
                            assert(writes@[k] == ws0[k]);
                            assert(points@[k] == ps0[k]);
                            assert(ps0[k] != cp);
                        } else {
                            lemma_writes_to_absent(o, t0, cp);
                            assert(writes@[k]@ =~= seq![w]);
                            assert(o.writes_to(t0, cp).push(w) =~= seq![w]);
                        }
                    }
                }
            }
            i = i + 1;
        }
        proof {
            assert(t.take(t.len() as int) =~= t);
        }
        Ok((points, writes))
    }

    /// Writes the grouped writes into their chunks, making chunks where
    /// the tilemap makes them, and reports one event per chunk point.
    fn write_groups(
        &mut self,
        points: &Vec<Point2>,
        writes: &Vec<Vec<(usize, Point2, RawTile)>>,
        Ghost(o): Ghost<Tilemap>,
        Ghost(t): Ghost<Seq<Tile>>,
    ) -> (r: TilemapResult<()>)
        requires
            old(self).wf(),
            old(self).same_settings(o),
            old(self).spec_events() == o.spec_events(),
            old(self).spec_layers() == o.layers_after(t),
            old(self).spec_chunk_map().dom() == o.spec_chunk_map().dom(),
            forall|p: Point2| #[trigger] o.has_chunk(p) ==> o.refreshed(t, p, old(self).spec_chunk_map()[p]),
            points@ == o.chunk_points_of(t),
            points@.no_duplicates(),
            writes@.len() == points@.len(),
            forall|k: int| 0 <= k < points@.len() ==> (#[trigger] writes@[k])@ == o.writes_to(t, points@[k]),
            forall|k: int, j: int|
                0 <= k < writes@.len() && 0 <= j < writes@[k]@.len() ==> o.spec_chunk_dimensions().encode_defined(
                    (#[trigger] writes@[k]@[j]).1,
                ),
            o.spec_auto_flags().auto_chunk && (exists|z: int|
                0 <= z < old(self).spec_layers().len() && old(self).spec_layers()[z] == Some(LayerKind::Dense))
                ==> o.chunk_area() <= u32::MAX,
        ensures
            r is Ok <==> o.spec_auto_flags().auto_chunk || forall|k: int|
                0 <= k < points@.len() ==> o.has_chunk(#[trigger] points@[k]),
            r matches Err(e) ==> e.spec_kind() == TilemapErrorKind::MissingChunk,
            r is Err ==> {
                &&& final(self).wf()
                &&& final(self).same_settings(o)
                &&& final(self).spec_layers() == old(self).spec_layers()
                &&& final(self).spec_chunk_map().dom() == old(self).spec_chunk_map().dom()
                &&& final(self).spec_events().take(o.spec_events().len() as int) == o.spec_events()
            },
            r is Ok ==> o.inserted(t, *final(self)),
    {
        let ghost n0 = o.spec_events().len();
        let mut g: usize = 0;
        proof {
            assert(points@.take(0) =~= Seq::<Point2>::empty());
            assert forall|p: Point2| #[trigger] self.has_chunk(p) <==> o.has_chunk(p) by {
                assert(self.spec_chunk_map().dom().contains(p) == o.spec_chunk_map().dom().contains(p));
            }
            assert(self.spec_events().take(n0 as int) =~= o.spec_events());
        }
        while g < points.len()
            invariant
                g <= points@.len(),
                self.wf(),
                self.same_settings(o),
                self.spec_layers() == o.layers_after(t),
                o.spec_layers().len() == self.spec_layers().len(),
                old(self).spec_chunk_map().dom() == o.spec_chunk_map().dom(),
                old(self).spec_layers() == o.layers_after(t),
                points@ == o.chunk_points_of(t),
                points@.no_duplicates(),
                writes@.len() == points@.len(),
                forall|k: int| 0 <= k < points@.len() ==> (#[trigger] writes@[k])@ == o.writes_to(t, points@[k]),
                forall|k: int, j: int|
                    0 <= k < writes@.len() && 0 <= j < writes@[k]@.len() ==> o.spec_chunk_dimensions().encode_defined(
                        (#[trigger] writes@[k]@[j]).1,
                    ),
                o.spec_auto_flags().auto_chunk && (exists|z: int|
                    0 <= z < self.spec_layers().len() && self.spec_layers()[z] == Some(LayerKind::Dense))
                    ==> o.chunk_area() <= u32::MAX,
                forall|p: Point2|
                    #[trigger] self.has_chunk(p) <==> o.has_chunk(p) || (o.spec_auto_flags().auto_chunk
                        && points@.take(g as int).contains(p)),
                forall|p: Point2|
                    #[trigger] self.has_chunk(p) && !points@.take(g as int).contains(p) ==> o.refreshed(
                        t,
                        p,
                        self.spec_chunk_map()[p],
                    ),
                forall|p: Point2|
                    #[trigger] self.has_chunk(p) && points@.take(g as int).contains(p) ==> exists|b: Chunk|
                        o.base_chunk(t, p, b) && b.written(self.spec_chunk_map()[p], o.indexed(o.writes_to(t, p))),
                !o.spec_auto_flags().auto_chunk ==> forall|k: int| 0 <= k < g ==> o.has_chunk(#[trigger] points@[k]),
                self.spec_events().len() == n0 + g,
                self.spec_events().take(n0 as int) == o.spec_events(),
                n0 == o.spec_events().len(),
                forall|k: int|
                    0 <= k < g ==> (#[trigger] self.spec_events()[n0 + k] matches ChunkEvent::Modified { layers }
                        && self.spec_chunk_map()[points@[k]].written_entities(
                        o.indexed(o.writes_to(t, points@[k])),
                        layers@,
                    )),
            decreases points@.len() - g,
        {
            let p = points[g];
            let ghost s0 = self.chunks@;
            let ghost pre = *self;
            proof {
                assert(!points@.take(g as int).contains(p)) by {
                    if points@.take(g as int).contains(p) {
                        let k = choose|k: int| 0 <= k < g && points@.take(g as int)[k] == p;
                        assert(points@[k] == points@[g as int]);
                    }
                }
            }
            let ci: usize = match find_chunk(&self.chunks, p) {
                Some(ci) => {
                    proof {
                        lemma_chunks_map_entry(s0, ci as int);
                        assert(pre.has_chunk(p));
                        assert(o.has_chunk(p));
                        assert(pre.spec_chunk_map().dom().insert(p) =~= pre.spec_chunk_map().dom());
                        assert(o.base_chunk(t, p, s0[ci as int]));
                    }
                    ci
                },
                None => {
                    if self.auto_flags.auto_chunk {
                        let c = Chunk::new(p, self.layers.as_slice(), self.chunk_dimensions);
                        proof {
                            lemma_chunks_map_push(s0, c);
                        }
                        let n = self.chunks.len();
                        self.chunks.push(c);
                        proof {
                            lemma_chunks_map_entry(self.chunks@, n as int);
                            assert(!pre.has_chunk(p));
                            assert(!o.has_chunk(p));
                            assert forall|z: int| 0 <= z < o.spec_layers().len() implies match #[trigger] o.layers_after(t)[z] {
                                Some(kind) => (c.spec_layers()[z] matches Some(l) && fresh_layer(l, kind, o.chunk_area())),
                                None => c.spec_layers()[z] is None,
                            } by {
                                assert(pre.spec_layers()[z] == o.layers_after(t)[z]);
                                assert(pre.layers@[z] == pre.spec_layers()[z]);
                            }
                            assert(o.base_chunk(t, p, c));
                            assert(self.chunks@[n as int] == c);
                        }
                        n
                    } else {
                        proof {
                            assert(!self.has_chunk(p));
                            assert(!o.has_chunk(p));
                            assert(points@[g as int] == p);
                            assert(self.spec_chunk_map().dom() =~= old(self).spec_chunk_map().dom()) by {
                                assert forall|q: Point2| self.spec_chunk_map().dom().contains(q) <==> old(
                                    self,
                                ).spec_chunk_map().dom().contains(q) by {
                                    assert(self.has_chunk(q) == o.has_chunk(q));
                                    assert(o.has_chunk(q) == o.spec_chunk_map().dom().contains(q));
                                }
                            }
                        }
                        return Err(TilemapError::new(TilemapErrorKind::MissingChunk));
                    }
                },
            };
            let ghost mid = *self;
            let ghost base = self.chunks@[ci as int];
            proof {
                assert(o.base_chunk(t, p, base));
                assert(mid.spec_chunk_map().dom() == pre.spec_chunk_map().dom().insert(p));
                assert(o.has_chunk(p) || o.spec_auto_flags().auto_chunk);
            }
            let ws = &writes[g];
            let mut idx: Vec<(usize, usize, RawTile)> = Vec::new();
            let mut j: usize = 0;
            while j < ws.len()
                invariant
                    j <= ws@.len(),
                    *ws == writes@[g as int],
                    g < writes@.len(),
                    self.spec_chunk_dimensions() == o.spec_chunk_dimensions(),
                    forall|k: int, m: int|
                        0 <= k < writes@.len() && 0 <= m < writes@[k]@.len() ==> o.spec_chunk_dimensions().encode_defined(
                            (#[trigger] writes@[k]@[m]).1,
                        ),
                    idx@ == o.indexed(ws@.take(j as int)),
                decreases ws@.len() - j,
            {
                let w = ws[j];
                assert(writes@[g as int]@[j as int] == w);
                let index = self.chunk_dimensions.encode_point_unchecked(w.1);
                idx.push((w.0, index, w.2));
                proof {
                    assert(idx@ =~= o.indexed(ws@.take(j as int + 1)));
                }
                j = j + 1;
            }
            proof {
                assert(ws@.take(ws@.len() as int) =~= ws@);
            }
            let c = &mut self.chunks[ci];
            let es = c.write_tiles(&idx);
            let ghost after = self.chunks@[ci as int];
            proof {
                lemma_chunks_map_update(mid.chunks@, ci as int, after);
                assert(self.chunks@ == mid.chunks@.update(ci as int, after));
            }
            self.events.push(ChunkEvent::Modified { layers: es });
            proof {
                let g1 = points@.take(g as int + 1);
                assert(g1 =~= points@.take(g as int).push(p));
                assert(self.spec_chunk_map() == mid.spec_chunk_map().insert(p, after));
                assert forall|q: Point2| #[trigger] self.has_chunk(q) <==> o.has_chunk(q) || (o.spec_auto_flags().auto_chunk
                    && g1.contains(q)) by {
                    assert(self.has_chunk(q) == (pre.has_chunk(q) || q == p));
                    if g1.contains(q) && q != p {
                        let k = choose|k: int| 0 <= k < g1.len() && g1[k] == q;
                        assert(points@.take(g as int)[k] == q);
                    }
                    if points@.take(g as int).contains(q) {
                        let k = choose|k: int| 0 <= k < g && points@.take(g as int)[k] == q;
                        assert(g1[k] == q);
                    }
                    if q == p {
                        assert(g1[g as int] == p);
                    }
                }
                assert forall|q: Point2| #[trigger] self.has_chunk(q) && !g1.contains(q) implies o.refreshed(
                    t,
                    q,
                    self.spec_chunk_map()[q],
                ) by {
                    assert(q != p) by {
                        assert(g1[g as int] == p);
                    }
                    assert(!points@.take(g as int).contains(q)) by {
                        if points@.take(g as int).contains(q) {
                            let k = choose|k: int| 0 <= k < g && points@.take(g as int)[k] == q;
                            assert(g1[k] == q);
                        }
                    }
                    assert(pre.has_chunk(q));
                }
                assert forall|q: Point2| #[trigger] self.has_chunk(q) && g1.contains(q) implies exists|b: Chunk|
                    o.base_chunk(t, q, b) && b.written(self.spec_chunk_map()[q], o.indexed(o.writes_to(t, q))) by {
                    if q == p {
                        assert(o.writes_to(t, p) == writes@[g as int]@);
                        assert(o.base_chunk(t, q, base) && base.written(self.spec_chunk_map()[q], o.indexed(o.writes_to(t, q))));
                    } else {
                        let k = choose|k: int| 0 <= k < g1.len() && g1[k] == q;
                        assert(points@.take(g as int)[k] == q);
                        assert(pre.has_chunk(q));
                    }
                }
                assert forall|k: int| 0 <= k < g + 1 implies (#[trigger] self.spec_events()[n0 + k] matches ChunkEvent::Modified {
                    layers,
                } && self.spec_chunk_map()[points@[k]].written_entities(o.indexed(o.writes_to(t, points@[k])), layers@)) by {
                    if k < g {
                        assert(self.spec_events()[n0 + k] == pre.spec_events()[n0 + k]);
                        assert(points@[k] != p);
                        assert(pre.has_chunk(points@[k])) by {
                            assert(points@.take(g as int)[k] == points@[k]);
                        }
                    } else {
                        assert(o.writes_to(t, p) == writes@[g as int]@);
                    }
                }
                assert(self.spec_events().take(n0 as int) =~= o.spec_events()) by {
                    assert forall|k: int| 0 <= k < n0 implies self.spec_events()[k] == pre.spec_events()[k] by {}
                    assert forall|k: int| 0 <= k < n0 implies pre.spec_events()[k] == pre.spec_events().take(n0 as int)[k] by {}
                }
            }
            g = g + 1;
        }
        proof {
            assert(points@.take(points@.len() as int) =~= points@);
            assert forall|q: Point2| #[trigger] self.has_chunk(q) implies exists|b: Chunk|
                o.base_chunk(t, q, b) && b.written(self.spec_chunk_map()[q], o.indexed(o.writes_to(t, q))) by {
                if !points@.contains(q) {
                    let c = self.spec_chunk_map()[q];
                    lemma_writes_to_absent(o, t, q);
                    assert(o.indexed(o.writes_to(t, q)) =~= Seq::<(usize, usize, RawTile)>::empty());
                    lemma_chunk_written_nothing(c);
                    assert(o.has_chunk(q));
                    assert(o.base_chunk(t, q, c));
                }
            }
        }
        Ok(())
    }

    /// The chunks of all the tiles lie within the dimensions of the
    /// tilemap, if it has them.
    pub open spec fn tiles_in_bounds(self, tiles: Seq<Tile>) -> bool {
        forall|i: int| 0 <= i < tiles.len() ==> !self.out_of_bounds(self.spec_chunk_point(#[trigger] tiles[i].point))
    }

    /// Returns `true` if the tilemap has dimensions and a chunk point lies
    /// outside them.
    fn chunk_out_of_bounds(&self, point: Point2) -> (b: bool)
        ensures
            b == self.out_of_bounds(point),
    {
        match &self.dimensions {
            None => false,
            Some(d) => {
                let w = u32_as_i32(d.width) as i64;
                let h = u32_as_i32(d.height) as i64;
                let x = point.x as i64;
                let y = point.y as i64;
                x > w / 2 || y > h / 2 || x < -w / 2 || y < -h / 2
            },
        }
    }

    /// Sets many tiles, adding a dense layer wherever a tile is on a sprite
    /// order without a layer, and creating chunks if the tilemap makes
    /// them. One event per chunk point reports the entities of the layers
    /// written. A tile on a sprite order whose chunk has no layer there, or
    /// past the end of a dense layer, is not stored.
    ///
    /// # Errors
    ///
    /// If the tilemap has dimensions and the chunk of a tile lies outside
    /// them, an error is returned and nothing changes. If a tile is on a
    /// sprite order past the last layer slot, an error is
    /// returned once the tiles before it have added their layers. If the
    /// tilemap does not make chunks and a tile falls in a chunk that does
    /// not exist, an error is returned.
    pub fn insert_tiles(&mut self, tiles: Vec<Tile>) -> (r: TilemapResult<()>)
        requires
            old(self).wf(),
            forall|i: int|
                0 <= i < tiles@.len() && old(self).slots_reached(tiles@, i) ==> old(self).local_point_defined(
                    #[trigger] tiles@[i].point,
                ),
            old(self).all_slots(tiles@) ==> forall|i: int|
                0 <= i < tiles@.len() ==> old(self).local_index_defined(#[trigger] tiles@[i].point),
            old(self).fills_dense(tiles@) ==> old(self).chunk_area() <= u32::MAX,
        ensures
            final(self).wf(),
            final(self).same_settings(*old(self)),
            !old(self).tiles_in_bounds(tiles@) ==> (r matches Err(e) && e.spec_kind() matches TilemapErrorKind::DimensionError(
                d,
            ) && d.spec_kind() == ErrorKind::OutOfBounds) && *final(self) == *old(self),
            r is Ok <==> old(self).tiles_in_bounds(tiles@) && old(self).all_slots(tiles@) && (old(self).spec_auto_flags().auto_chunk || forall|i: int|
                0 <= i < tiles@.len() ==> old(self).has_chunk(old(self).spec_chunk_point(#[trigger] tiles@[i].point))),
            old(self).tiles_in_bounds(tiles@) && !old(self).all_slots(tiles@) ==> (r matches Err(e) && exists|i: int|
                0 <= i < tiles@.len() && e.spec_kind() == TilemapErrorKind::LayerDoesNotExist(
                    (#[trigger] tiles@[i]).sprite_order,
                ) && tiles@[i].sprite_order >= old(self).spec_layers().len() && old(self).slots_reached(tiles@, i - 1)),
            old(self).tiles_in_bounds(tiles@) && old(self).all_slots(tiles@) && r is Err ==> {
                &&& r matches Err(e) && e.spec_kind() == TilemapErrorKind::MissingChunk
                &&& final(self).spec_layers() == old(self).layers_after(tiles@)
                &&& final(self).spec_chunk_map().dom() == old(self).spec_chunk_map().dom()
            },
            r is Ok ==> old(self).inserted(tiles@, *final(self)),
    {
        let mut i: usize = 0;
        while i < tiles.len()
            invariant
                i <= tiles@.len(),
                *self == *old(self),
                old(self).wf(),
                forall|j: int| 0 <= j < i ==> !self.out_of_bounds(self.spec_chunk_point(#[trigger] tiles@[j].point)),
            decreases tiles@.len() - i,
        {
            let (x, y) = self.point_to_chunk_point(tiles[i].point);
            if self.chunk_out_of_bounds(Point2::new(x, y)) {
                proof {
                    assert((Point2 { x, y }) == self.spec_chunk_point(tiles@[i as int].point));
                    assert(!self.tiles_in_bounds(tiles@));
                }
                return Err(TilemapError::new(TilemapErrorKind::DimensionError(DimensionError::new(ErrorKind::OutOfBounds))));
            }
            i = i + 1;
        }
        self.insert_tiles_in_bounds(tiles)
    }

    /// Sets many tiles whose chunks lie within the dimensions of the
    /// tilemap, as `insert_tiles` does once it has checked them.
    fn insert_tiles_in_bounds(&mut self, tiles: Vec<Tile>) -> (r: TilemapResult<()>)
        requires
            old(self).wf(),
            forall|i: int|
                0 <= i < tiles@.len() && old(self).slots_reached(tiles@, i) ==> old(self).local_point_defined(
                    #[trigger] tiles@[i].point,
                ),
            old(self).all_slots(tiles@) ==> forall|i: int|
                0 <= i < tiles@.len() ==> old(self).local_index_defined(#[trigger] tiles@[i].point),
            old(self).fills_dense(tiles@) ==> old(self).chunk_area() <= u32::MAX,
        ensures
            final(self).wf(),
            final(self).same_settings(*old(self)),
            r is Ok <==> old(self).all_slots(tiles@) && (old(self).spec_auto_flags().auto_chunk || forall|i: int|
                0 <= i < tiles@.len() ==> old(self).has_chunk(old(self).spec_chunk_point(#[trigger] tiles@[i].point))),
            !old(self).all_slots(tiles@) ==> (r matches Err(e) && exists|i: int|
                0 <= i < tiles@.len() && e.spec_kind() == TilemapErrorKind::LayerDoesNotExist(
                    (#[trigger] tiles@[i]).sprite_order,
                ) && tiles@[i].sprite_order >= old(self).spec_layers().len() && old(self).slots_reached(tiles@, i - 1)),
            old(self).all_slots(tiles@) && r is Err ==> {
                &&& r matches Err(e) && e.spec_kind() == TilemapErrorKind::MissingChunk
                &&& final(self).spec_layers() == old(self).layers_after(tiles@)
                &&& final(self).spec_chunk_map().dom() == old(self).spec_chunk_map().dom()
            },
            r is Ok ==> old(self).inserted(tiles@, *final(self)),
    {
        let ghost o = *self;
        let ghost t = tiles@;
        let prepared = self.prepare_tiles(&tiles);
        match prepared {
            Err(e) => Err(e),
            Ok((points, writes)) => {
                proof {
                    assert forall|k: int, j: int|
                        0 <= k < writes@.len() && 0 <= j < writes@[k]@.len() implies o.spec_chunk_dimensions().encode_defined(
                            (#[trigger] writes@[k]@[j]).1,
                        ) by {
                        lemma_writes_to_from(o, t, points@[k], j);
                        let i = choose|i: int| 0 <= i < t.len() && o.writes_to(t, points@[k])[j] == o.write_of(#[trigger] t[i]);
                        assert(o.local_index_defined(t[i].point));
                    }
                    if o.spec_auto_flags().auto_chunk && (exists|z: int|
                        0 <= z < self.spec_layers().len() && self.spec_layers()[z] == Some(LayerKind::Dense)) {
                        let z = choose|z: int| 0 <= z < self.spec_layers().len() && self.spec_layers()[z] == Some(LayerKind::Dense);
                        if o.spec_layers()[z] is None {
                            assert(Tilemap::used(t, z));
                            let i = choose|i: int| 0 <= i < t.len() && (#[trigger] t[i]).sprite_order == z;
                            assert(t[i].sprite_order < o.spec_layers().len() && o.spec_layers()[t[i].sprite_order as int] is None);
                            assert(o.needs_new_layer(t));
                        } else {
                            assert(o.has_dense_layer());
                        }
                    }
                    assert((forall|k: int| 0 <= k < points@.len() ==> o.has_chunk(#[trigger] points@[k])) <==> (forall|i: int|
                        0 <= i < t.len() ==> o.has_chunk(o.spec_chunk_point(#[trigger] t[i].point)))) by {
                        if forall|k: int| 0 <= k < points@.len() ==> o.has_chunk(#[trigger] points@[k]) {
                            assert forall|i: int| 0 <= i < t.len() implies o.has_chunk(o.spec_chunk_point(#[trigger] t[i].point)) by {
                                lemma_chunk_points_of_contains(o, t, o.spec_chunk_point(t[i].point));
                                let k = choose|k: int| 0 <= k < points@.len() && points@[k] == o.spec_chunk_point(t[i].point);
                            }
                        }
                        if forall|i: int| 0 <= i < t.len() ==> o.has_chunk(o.spec_chunk_point(#[trigger] t[i].point)) {
                            assert forall|k: int| 0 <= k < points@.len() implies o.has_chunk(#[trigger] points@[k]) by {
                                assert(points@.contains(points@[k]));
                                lemma_chunk_points_of_contains(o, t, points@[k]);
                            }
                        }
                    }
                }
                self.write_groups(&points, &writes, Ghost(o), Ghost(t))
            },
        }
    }

    /// Sets a single tile, creating its chunk if the tilemap makes chunks.
    ///
    /// # Errors
    ///
    /// If the tilemap has dimensions and the tile's chunk lies outside them,
    /// if the tile is on a sprite order past the last layer slot, or if the
    /// tilemap does not make chunks and the tile's chunk does not exist, an
    /// error is returned.
    pub fn insert_tile(&mut self, tile: Tile) -> (r: TilemapResult<()>)
        requires
            old(self).wf(),
            tile.sprite_order < old(self).spec_layers().len() ==> old(self).local_index_defined(tile.point),
            old(self).fills_dense(seq![tile]) ==> old(self).chunk_area() <= u32::MAX,
        ensures
            final(self).wf(),
            final(self).same_settings(*old(self)),
            old(self).out_of_bounds(old(self).spec_chunk_point(tile.point)) ==> (r matches Err(e) && e.spec_kind() matches TilemapErrorKind::DimensionError(
                d,
            ) && d.spec_kind() == ErrorKind::OutOfBounds) && *final(self) == *old(self),
            r is Ok <==> !old(self).out_of_bounds(old(self).spec_chunk_point(tile.point)) && tile.sprite_order < old(
                self,
            ).spec_layers().len() && (old(self).spec_auto_flags().auto_chunk || old(self).has_chunk(
                old(self).spec_chunk_point(tile.point),
            )),
            !old(self).out_of_bounds(old(self).spec_chunk_point(tile.point)) && tile.sprite_order >= old(
                self,
            ).spec_layers().len() ==> (r matches Err(e) && e.spec_kind() == TilemapErrorKind::LayerDoesNotExist(
                tile.sprite_order,
            )),
            !old(self).out_of_bounds(old(self).spec_chunk_point(tile.point)) && tile.sprite_order < old(
                self,
            ).spec_layers().len() && r is Err ==> {
                &&& r matches Err(e) && e.spec_kind() == TilemapErrorKind::MissingChunk
                &&& final(self).spec_layers() == old(self).layers_after(seq![tile])
                &&& final(self).spec_chunk_map().dom() == old(self).spec_chunk_map().dom()
            },
            r is Ok ==> old(self).inserted(seq![tile], *final(self)),
    {
        let tiles = vec![tile];
        proof {
            assert(tiles@ == seq![tile]);
            assert(tiles@[0] == tile);
        }
        let r = self.insert_tiles(tiles);
        proof {
            assert(old(self).tiles_in_bounds(seq![tile]) <==> !old(self).out_of_bounds(
                old(self).spec_chunk_point(tile.point),
            )) by {
                assert(seq![tile][0] == tile);
            }
            if tile.sprite_order >= old(self).spec_layers().len() {
                assert(!old(self).all_slots(seq![tile]));
            }
        }
        r
    }

    /// The tiles that clearing the points at their sprite orders sets: a
    /// tile with sprite index zero and a transparent tint at each.
    pub open spec fn cleared(points: Seq<(Point2, usize)>) -> Seq<Tile> {
        Seq::new(points.len(), |i: int| Tile::spec_with(points[i].0, 0, points[i].1, Color::spec_clear()))
    }

    /// Clears the tiles at the points and sprite orders, by setting a
    /// transparent tile with sprite index zero at each.
    ///
    /// # Errors
    ///
    /// The errors are those of `insert_tiles` for the clearing tiles.
    pub fn clear_tiles(&mut self, points: Vec<(Point2, usize)>) -> (r: TilemapResult<()>)
        requires
            old(self).wf(),
            forall|i: int|
                0 <= i < points@.len() && old(self).slots_reached(Tilemap::cleared(points@), i)
                    ==> old(self).local_point_defined(#[trigger] points@[i].0),
            old(self).all_slots(Tilemap::cleared(points@)) ==> forall|i: int|
                0 <= i < points@.len() ==> old(self).local_index_defined(#[trigger] points@[i].0),
            old(self).fills_dense(Tilemap::cleared(points@)) ==> old(self).chunk_area() <= u32::MAX,
        ensures
            final(self).wf(),
            final(self).same_settings(*old(self)),
            !old(self).tiles_in_bounds(Tilemap::cleared(points@)) ==> (r matches Err(e) && e.spec_kind() matches TilemapErrorKind::DimensionError(
                d,
            ) && d.spec_kind() == ErrorKind::OutOfBounds) && *final(self) == *old(self),
            r is Ok <==> old(self).tiles_in_bounds(Tilemap::cleared(points@)) && old(self).all_slots(
                Tilemap::cleared(points@),
            ) && (old(self).spec_auto_flags().auto_chunk || forall|i: int|
                0 <= i < points@.len() ==> old(self).has_chunk(old(self).spec_chunk_point(#[trigger] points@[i].0))),
            old(self).tiles_in_bounds(Tilemap::cleared(points@)) && !old(self).all_slots(Tilemap::cleared(points@)) ==> (r matches Err(e) && exists|i: int|
                0 <= i < points@.len() && e.spec_kind() == TilemapErrorKind::LayerDoesNotExist(
                    (#[trigger] points@[i]).1,
                ) && points@[i].1 >= old(self).spec_layers().len() && old(self).slots_reached(
                    Tilemap::cleared(points@),
                    i - 1,
                )),
            old(self).tiles_in_bounds(Tilemap::cleared(points@)) && old(self).all_slots(Tilemap::cleared(points@)) && r is Err ==> {
                &&& r matches Err(e) && e.spec_kind() == TilemapErrorKind::MissingChunk
                &&& final(self).spec_layers() == old(self).layers_after(Tilemap::cleared(points@))
                &&& final(self).spec_chunk_map().dom() == old(self).spec_chunk_map().dom()
            },
            r is Ok ==> old(self).inserted(Tilemap::cleared(points@), *final(self)),
    {
        let ghost c = Tilemap::cleared(points@);
        let mut tiles: Vec<Tile> = Vec::new();
        let mut i: usize = 0;
        while i < points.len()
            invariant
                i <= points@.len(),
                c == Tilemap::cleared(points@),
                tiles@ == c.take(i as int),
            decreases points@.len() - i,
        {
            let (point, z_order) = points[i];
            tiles.push(Tile::with_z_order_and_tint(point, 0, z_order, Color::clear()));
            proof {
                assert(tiles@ =~= c.take(i as int + 1));
            }
            i = i + 1;
        }
        proof {
            assert(tiles@ =~= c);
            assert forall|i: int| 0 <= i < c.len() && old(self).slots_reached(c, i) implies old(self).local_point_defined(
                (#[trigger] c[i]).point,
            ) by {
                assert(c[i].point == points@[i].0);
            }
            if old(self).all_slots(c) {
                assert forall|i: int| 0 <= i < c.len() implies old(self).local_index_defined((#[trigger] c[i]).point) by {
                    assert(c[i].point == points@[i].0);
                }
            }
        }
        let r = self.insert_tiles(tiles);
        proof {
            if old(self).all_slots(c) && !old(self).spec_auto_flags().auto_chunk {
                assert((forall|i: int| 0 <= i < c.len() ==> old(self).has_chunk(old(self).spec_chunk_point(#[trigger] c[i].point)))
                    == (forall|i: int| 0 <= i < points@.len() ==> old(self).has_chunk(old(self).spec_chunk_point(#[trigger] points@[i].0)))) by {
                    assert forall|i: int| 0 <= i < c.len() implies #[trigger] c[i].point == points@[i].0 by {}
                    if forall|i: int| 0 <= i < c.len() ==> old(self).has_chunk(old(self).spec_chunk_point(#[trigger] c[i].point)) {
                        assert forall|i: int| 0 <= i < points@.len() implies old(self).has_chunk(old(self).spec_chunk_point(#[trigger] points@[i].0)) by {
                            assert(c[i].point == points@[i].0);
                        }
                    }
                }
            }
            if old(self).tiles_in_bounds(c) && !old(self).all_slots(c) {
                let e = r->Err_0;
                let i = choose|i: int|
                    0 <= i < c.len() && e.spec_kind() == TilemapErrorKind::LayerDoesNotExist((#[trigger] c[i]).sprite_order)
                        && c[i].sprite_order >= old(self).spec_layers().len() && old(self).slots_reached(c, i - 1);
                assert(c[i].sprite_order == points@[i].1);
            }
        }
        r
    }

    /// Clears the tile at a point and sprite order, by setting a transparent
    /// tile with sprite index zero there: a dense layer hides it and a
    /// sparse layer drops its entry.
    ///
    /// # Errors
    ///
    /// The errors are those of `insert_tile` for the clearing tile.
    pub fn clear_tile(&mut self, point: Point2, z_order: usize) -> (r: TilemapResult<()>)
        requires
            old(self).wf(),
            z_order < old(self).spec_layers().len() ==> old(self).local_index_defined(point),
            old(self).fills_dense(seq![Tile::spec_with(point, 0, z_order, Color::spec_clear())]) ==> old(
                self,
            ).chunk_area() <= u32::MAX,
        ensures
            final(self).wf(),
            final(self).same_settings(*old(self)),
            old(self).out_of_bounds(old(self).spec_chunk_point(point)) ==> (r matches Err(e) && e.spec_kind() matches TilemapErrorKind::DimensionError(
                d,
            ) && d.spec_kind() == ErrorKind::OutOfBounds) && *final(self) == *old(self),
            r is Ok <==> !old(self).out_of_bounds(old(self).spec_chunk_point(point)) && z_order < old(
                self,
            ).spec_layers().len() && (old(self).spec_auto_flags().auto_chunk || old(self).has_chunk(
                old(self).spec_chunk_point(point),
            )),
            !old(self).out_of_bounds(old(self).spec_chunk_point(point)) && z_order >= old(self).spec_layers().len()
                ==> (r matches Err(e) && e.spec_kind() == TilemapErrorKind::LayerDoesNotExist(z_order)),
            r is Ok ==> old(self).inserted(seq![Tile::spec_with(point, 0, z_order, Color::spec_clear())], *final(self)),
    {
        let tile = Tile::with_z_order_and_tint(point, 0, z_order, Color::clear());
        self.insert_tile(tile)
    }

    /// The point of a tile inside the chunk that contains it.
    fn point_to_tile_point(&self, point: Point2) -> (r: Point2)
        requires
            self.local_point_defined(point),
        ensures
            r == self.spec_local_point(point),
    {
        let (cx, cy) = self.point_to_chunk_point(point);
        let x = local_coordinate(point.x, cx, self.chunk_dimensions.width);
        let y = local_coordinate(point.y, cy, self.chunk_dimensions.height);
        Point2::new(x, y)
    }

    /// Gets the raw tile at a point and sprite order, if the tilemap shows
    /// one there.
    pub fn get_tile(&self, point: Point2, z_order: usize) -> (r: Option<&RawTile>)
        requires
            self.wf(),
            self.local_index_defined(point),
        ensures
            r matches Some(t) ==> self.spec_tile_at(point, z_order) == Some(*t),
            r is None ==> self.spec_tile_at(point, z_order) is None,
    {
        let (cx, cy) = self.point_to_chunk_point(point);
        let cp = Point2::new(cx, cy);
        let tile_point = self.point_to_tile_point(point);
        match find_chunk(&self.chunks, cp) {
            Some(i) => {
                proof {
                    lemma_chunks_map_entry(self.chunks@, i as int);
                    lemma_chunk_of(*self, cp);
                }
                let index = self.chunk_dimensions.encode_point_unchecked(tile_point);
                self.chunks[i].get_tile(z_order, index)
            },
            None => None,
        }
    }

    /// `after` is this tilemap with the tile at a point and sprite order
    /// replaced by `tile` in the layer that stores it.
    pub open spec fn tile_written(self, after: Tilemap, point: Point2, z: usize, tile: RawTile) -> bool {
        let cp = self.spec_chunk_point(point);
        let c0 = self.spec_chunk_map()[cp];
        let c1 = after.spec_chunk_map()[cp];
        &&& after.wf()
        &&& after.same_settings(self)
        &&& after.spec_layers() == self.spec_layers()
        &&& after.spec_events() == self.spec_events()
        &&& after.spec_chunk_map() == self.spec_chunk_map().insert(cp, c1)
        &&& c0.inner_changed(c1, z)
        &&& c0.layer(z).inner.write_tile_gives(c1.layer(z).inner, self.spec_local_index(point), tile)
    }

    /// Gets a mutable reference to the raw tile at a point and sprite order,
    /// if the tilemap shows one there. What is written through it becomes
    /// the tile at that index of the layer.
    #[verifier::spinoff_prover]
    #[verifier::rlimit(30)]
    pub fn get_tile_mut(&mut self, point: Point2, z_order: usize) -> (r: Option<&mut RawTile>)
        requires
            old(self).wf(),
            old(self).local_index_defined(point),
        ensures
            r is None ==> {
                &&& old(self).spec_tile_at(point, z_order) is None
                &&& final(self).wf()
                &&& final(self).same_settings(*old(self))
                &&& final(self).spec_layers() == old(self).spec_layers()
                &&& final(self).spec_events() == old(self).spec_events()
                &&& final(self).spec_chunks() == old(self).spec_chunks()
            },
            r matches Some(t) ==> old(self).spec_tile_at(point, z_order) == Some(*t),
            r matches Some(t) ==> old(self).tile_written(*final(self), point, z_order, *final(t)),
    {
        let (cx, cy) = self.point_to_chunk_point(point);
        let cp = Point2::new(cx, cy);
        let tile_point = self.point_to_tile_point(point);
        match find_chunk(&self.chunks, cp) {
            Some(i) => {
                proof {
                    lemma_chunks_map_entry(self.chunks@, i as int);
                    lemma_chunk_of(*self, cp);
                }
                let index = self.chunk_dimensions.encode_point_unchecked(tile_point);
                let ghost s0 = self.chunks@;
                proof {
                    assert forall|c1: Chunk| c1.spec_point() == s0[i as int].spec_point() implies #[trigger] points_distinct(
                        s0.update(i as int, c1),
                    ) && chunks_map(s0.update(i as int, c1)) == chunks_map(s0).insert(c1.spec_point(), c1) by {
                        lemma_chunks_map_update(s0, i as int, c1);
                    }
                }
                let c = &mut self.chunks[i];
                c.get_tile_mut(z_order, index)
            },
            None => None,
        }
    }

    /// `after` is this tilemap once the tiles have been inserted: the new
    /// layers are added, chunks are made where needed, every chunk takes the
    /// writes of its tiles in order, and one event per chunk point reports
    /// the entities of the layers written.
    pub open spec fn inserted(self, tiles: Seq<Tile>, after: Tilemap) -> bool {
        let points = self.chunk_points_of(tiles);
        &&& after.wf()
        &&& after.same_settings(self)
        &&& after.spec_layers() == self.layers_after(tiles)
        &&& forall|p: Point2|
            #[trigger] after.has_chunk(p) <==> self.has_chunk(p) || (self.spec_auto_flags().auto_chunk
                && points.contains(p))
        &&& forall|p: Point2|
            #[trigger] after.has_chunk(p) ==> exists|b: Chunk|
                self.base_chunk(tiles, p, b) && b.written(
                    after.spec_chunk_map()[p],
                    self.indexed(self.writes_to(tiles, p)),
                )
        &&& after.spec_events().len() == self.spec_events().len() + points.len()
        &&& after.spec_events().take(self.spec_events().len() as int) == self.spec_events()
        &&& forall|k: int|
            0 <= k < points.len() ==> (#[trigger] after.spec_events()[self.spec_events().len() + k] matches ChunkEvent::Modified {
                layers,
            } && after.spec_chunk_map()[points[k]].written_entities(
                self.indexed(self.writes_to(tiles, points[k])),
                layers@,
            ))
    }
}

/// The chunk points of the tiles are those of some tile.
pub proof fn lemma_chunk_points_of_contains(t: Tilemap, tiles: Seq<Tile>, p: Point2)
    ensures
        t.chunk_points_of(tiles).contains(p) <==> exists|i: int|
            0 <= i < tiles.len() && t.spec_chunk_point((#[trigger] tiles[i]).point) == p,
    decreases tiles.len(),
{
    if tiles.len() > 0 {
        let init = tiles.drop_last();
        lemma_chunk_points_of_contains(t, init, p);
        let rest = t.chunk_points_of(init);
        let q = t.spec_chunk_point(tiles.last().point);
        if t.chunk_points_of(tiles).contains(p) {
            let k = choose|k: int| 0 <= k < t.chunk_points_of(tiles).len() && t.chunk_points_of(tiles)[k] == p;
            if k < rest.len() {
                assert(rest[k] == p);
                let i = choose|i: int| 0 <= i < init.len() && t.spec_chunk_point((#[trigger] init[i]).point) == p;
                assert(tiles[i] == init[i]);
            } else {
                assert(tiles[tiles.len() - 1] == tiles.last());
            }
        }
        if exists|i: int| 0 <= i < tiles.len() && t.spec_chunk_point((#[trigger] tiles[i]).point) == p {
            let i = choose|i: int| 0 <= i < tiles.len() && t.spec_chunk_point((#[trigger] tiles[i]).point) == p;
            if i < init.len() {
                assert(init[i] == tiles[i]);
                let k = choose|k: int| 0 <= k < rest.len() && rest[k] == p;
                if !rest.contains(q) {
                    assert(t.chunk_points_of(tiles)[k] == p);
                }
            } else {
                if rest.contains(q) {
                } else {
                    assert(t.chunk_points_of(tiles)[rest.len() as int] == p);
                }
            }
        }
    }
}

/// Every write to a chunk is the write of some tile.
pub proof fn lemma_writes_to_from(t: Tilemap, tiles: Seq<Tile>, p: Point2, j: int)
    requires
        0 <= j < t.writes_to(tiles, p).len(),
    ensures
        exists|i: int| 0 <= i < tiles.len() && t.writes_to(tiles, p)[j] == t.write_of(#[trigger] tiles[i]),
    decreases tiles.len(),
{
    if tiles.len() > 0 {
        let init = tiles.drop_last();
        let rest = t.writes_to(init, p);
        if j < rest.len() {
            lemma_writes_to_from(t, init, p, j);
            let i = choose|i: int| 0 <= i < init.len() && rest[j] == t.write_of(#[trigger] init[i]);
            assert(tiles[i] == init[i]);
        } else {
            assert(tiles[tiles.len() - 1] == tiles.last());
        }
    }
}

/// The writes of a single tile: its own write in its chunk, none elsewhere.
pub proof fn lemma_writes_of_one(t: Tilemap, tile: Tile, p: Point2)
    ensures
        t.writes_to(seq![tile], p) == if t.spec_chunk_point(tile.point) == p {
            seq![t.write_of(tile)]
        } else {
            Seq::<(usize, Point2, RawTile)>::empty()
        },
{
    let s = seq![tile];
    assert(s.drop_last() =~= Seq::<Tile>::empty());
    assert(s.last() == tile);
    assert(t.writes_to(s.drop_last(), p) == Seq::<(usize, Point2, RawTile)>::empty());
    if t.spec_chunk_point(tile.point) == p {
        assert(Seq::<(usize, Point2, RawTile)>::empty().push(t.write_of(tile)) =~= seq![t.write_of(tile)]);
    }
}

/// Once a tile has been inserted, the tilemap shows it at its point and
/// sprite order: the layer of its chunk at that sprite order shows the
/// tile, unless it is transparent, which shows nothing. This holds where
/// the chunk has a layer at the sprite order that stores the tile's index.
pub proof fn lemma_insert_tile_then_get(before: Tilemap, tile: Tile, after: Tilemap)
    requires
        before.wf(),
        before.inserted(seq![tile], after),
        after.has_chunk(before.spec_chunk_point(tile.point)),
        after.spec_chunk_map()[before.spec_chunk_point(tile.point)].has_layer(tile.sprite_order),
        after.spec_chunk_map()[before.spec_chunk_point(tile.point)].layer(tile.sprite_order).inner.holds_index(
            before.spec_local_index(tile.point),
        ),
    ensures
        after.spec_tile_at(tile.point, tile.sprite_order) == after.spec_chunk_map()[before.spec_chunk_point(
            tile.point,
        )].layer(tile.sprite_order).inner.shows(tile.spec_raw()),
{
    let cp = before.spec_chunk_point(tile.point);
    let z = tile.sprite_order;
    let idx = before.spec_local_index(tile.point);
    lemma_writes_of_one(before, tile, cp);
    let ws = before.indexed(before.writes_to(seq![tile], cp));
    assert(ws =~= seq![(z, idx, tile.spec_raw())]);
    let c = after.spec_chunk_map()[cp];
    let b = choose|b: Chunk| before.base_chunk(seq![tile], cp, b) && b.written(c, ws);
    assert(b.written(c, ws));
    assert(c.spec_layers()[z as int] is Some);
    assert(b.spec_layers()[z as int] is Some) by {
        if b.spec_layers()[z as int] is None {
            assert(c.spec_layers()[z as int] is None);
        }
    }
    let l = b.spec_layers()[z as int].unwrap();
    let l2 = c.spec_layers()[z as int].unwrap();
    assert(l.inner.written_gives(l2.inner, ws, z));
    assert(ws.drop_last() =~= Seq::<(usize, usize, RawTile)>::empty());
    match (l.inner, l2.inner) {
        (LayerKindInner::Dense(a), LayerKindInner::Dense(d)) => {
            assert(dense_written(a.spec_tiles(), ws.drop_last(), z) == a.spec_tiles());
            assert(d.spec_tiles() == a.spec_tiles().update(idx as int, tile.spec_raw()));
        },
        (LayerKindInner::Sparse(a), LayerKindInner::Sparse(d)) => {
            assert(sparse_written(a.spec_tiles(), ws.drop_last(), z) == a.spec_tiles());
            assert(d.spec_tiles() == sparse_set(a.spec_tiles(), idx, tile.spec_raw()));
        },
        _ => {},
    }
}

/// Once the tile at a point and sprite order has been cleared, the layer
/// there shows no tile, dense or sparse.
pub proof fn lemma_clear_tile_then_get(before: Tilemap, point: Point2, z_order: usize, after: Tilemap)
    requires
        before.wf(),
        before.inserted(seq![Tile::spec_with(point, 0, z_order, Color::spec_clear())], after),
        after.has_chunk(before.spec_chunk_point(point)),
        after.spec_chunk_map()[before.spec_chunk_point(point)].has_layer(z_order),
    ensures
        after.spec_tile_at(point, z_order) is None,
{
    let tile = Tile::spec_with(point, 0, z_order, Color::spec_clear());
    let cp = before.spec_chunk_point(point);
    let c = after.spec_chunk_map()[cp];
    let idx = before.spec_local_index(point);
    if c.layer(z_order).inner.holds_index(idx) {
        lemma_insert_tile_then_get(before, tile, after);
    } else {
        match c.layer(z_order).inner {
            LayerKindInner::Dense(d) => {
                assert(!(idx < d.spec_tiles().len()));
            },
            _ => {},
        }
    }
}

/// Inserting a tile leaves what the tilemap shows in other chunks as it
/// was, on every sprite order but one that the tile adds to the tilemap.
pub proof fn lemma_insert_tile_frame(before: Tilemap, tile: Tile, after: Tilemap, q: Point2, z: usize)
    requires
        before.wf(),
        before.inserted(seq![tile], after),
        before.has_chunk(before.spec_chunk_point(q)),
        before.spec_chunk_point(q) != before.spec_chunk_point(tile.point),
        !(z == tile.sprite_order && z < before.spec_layers().len() && before.spec_layers()[z as int] is None),
    ensures
        after.spec_tile_at(q, z) == before.spec_tile_at(q, z),
{
    let cq = before.spec_chunk_point(q);
    lemma_writes_of_one(before, tile, cq);
    let ws = before.indexed(before.writes_to(seq![tile], cq));
    assert(ws =~= Seq::<(usize, usize, RawTile)>::empty());
    assert(after.has_chunk(cq));
    let c0 = before.spec_chunk_map()[cq];
    let c = after.spec_chunk_map()[cq];
    let b = choose|b: Chunk| before.base_chunk(seq![tile], cq, b) && b.written(c, ws);
    lemma_chunk_of(before, cq);
    assert(before.refreshed(seq![tile], cq, b));
    if (z as int) < c0.spec_layers().len() {
        assert(!(before.spec_layers()[z as int] is None && Tilemap::used(seq![tile], z as int))) by {
            if Tilemap::used(seq![tile], z as int) {
                let j = choose|j: int| 0 <= j < 1 && (#[trigger] seq![tile][j]).sprite_order == z as int;
                assert(seq![tile][j] == tile);
            }
        }
        assert(b.spec_layers()[z as int] == c0.spec_layers()[z as int]);
        match b.spec_layers()[z as int] {
            Some(l) => {
                let l2 = c.spec_layers()[z as int].unwrap();
                match (l.inner, l2.inner) {
                    (LayerKindInner::Dense(a), LayerKindInner::Dense(d)) => {
                        assert(d.spec_tiles() == a.spec_tiles());
                    },
                    (LayerKindInner::Sparse(a), LayerKindInner::Sparse(d)) => {
                        assert(d.spec_tiles() == a.spec_tiles());
                    },
                    _ => {},
                }
            },
            None => {},
        }
    }
}

/// Inserting a tile leaves the rest of its own chunk as it was: every other
/// index, and every other sprite order but one that the tile adds to the
/// tilemap, shows what it showed before. With `lemma_insert_tile_frame`
/// for the other chunks, clearing a tile leaves every other tile as it was.
pub proof fn lemma_insert_tile_frame_in_chunk(before: Tilemap, tile: Tile, after: Tilemap, q: Point2, z: usize)
    requires
        before.wf(),
        before.inserted(seq![tile], after),
        before.has_chunk(before.spec_chunk_point(tile.point)),
        before.spec_chunk_point(q) == before.spec_chunk_point(tile.point),
        z != tile.sprite_order || before.spec_local_index(q) != before.spec_local_index(tile.point),
        !(z == tile.sprite_order && z < before.spec_layers().len() && before.spec_layers()[z as int] is None),
    ensures
        after.spec_tile_at(q, z) == before.spec_tile_at(q, z),
{
    let cq = before.spec_chunk_point(q);
    let idx = before.spec_local_index(tile.point);
    let j = before.spec_local_index(q);
    lemma_writes_of_one(before, tile, cq);
    let ws = before.indexed(before.writes_to(seq![tile], cq));
    assert(ws =~= seq![(tile.sprite_order, idx, tile.spec_raw())]);
    assert(ws.drop_last() =~= Seq::<(usize, usize, RawTile)>::empty());
    assert(after.has_chunk(cq));
    let c0 = before.spec_chunk_map()[cq];
    let c = after.spec_chunk_map()[cq];
    let b = choose|b: Chunk| before.base_chunk(seq![tile], cq, b) && b.written(c, ws);
    lemma_chunk_of(before, cq);
    assert(before.refreshed(seq![tile], cq, b));
    if (z as int) < c0.spec_layers().len() {
        assert(!(before.spec_layers()[z as int] is None && Tilemap::used(seq![tile], z as int))) by {
            if Tilemap::used(seq![tile], z as int) {
                let k = choose|k: int| 0 <= k < 1 && (#[trigger] seq![tile][k]).sprite_order == z as int;
                assert(seq![tile][k] == tile);
            }
        }
        assert(b.spec_layers()[z as int] == c0.spec_layers()[z as int]);
        match b.spec_layers()[z as int] {
            Some(l) => {
                let l2 = c.spec_layers()[z as int].unwrap();
                assert(l.inner.written_gives(l2.inner, ws, z));
                match (l.inner, l2.inner) {
                    (LayerKindInner::Dense(a), LayerKindInner::Dense(d)) => {
                        assert(dense_written(a.spec_tiles(), ws.drop_last(), z) == a.spec_tiles());
                        assert(d.spec_tiles() == if tile.sprite_order == z && idx < a.spec_tiles().len() {
                            a.spec_tiles().update(idx as int, tile.spec_raw())
                        } else {
                            a.spec_tiles()
                        });
                        assert(d.spec_tiles().len() == a.spec_tiles().len());
                        if 0 <= j < a.spec_tiles().len() {
                            assert(d.spec_tiles()[j as int] == a.spec_tiles()[j as int]);
                        }
                    },
                    (LayerKindInner::Sparse(a), LayerKindInner::Sparse(d)) => {
                        assert(sparse_written(a.spec_tiles(), ws.drop_last(), z) == a.spec_tiles());
                        assert(d.spec_tiles().contains_key(j) == a.spec_tiles().contains_key(j));
                    },
                    _ => {},
                }
            },
            None => {},
        }
    }
}

/// The `k`th tile is the last of the tiles written to its chunk, sprite
/// order and index.
pub open spec fn last_write_of(t: Tilemap, tiles: Seq<Tile>, k: int) -> bool {
    forall|j: int|
        k < j < tiles.len() ==> !(t.spec_chunk_point(#[trigger] tiles[j].point) == t.spec_chunk_point(tiles[k].point)
            && tiles[j].sprite_order == tiles[k].sprite_order && t.spec_local_index(tiles[j].point)
            == t.spec_local_index(tiles[k].point))
}

/// Among the writes to the chunk of the `k`th tile made by the first `n`
/// tiles, the write of the `k`th tile is the last to its sprite order and
/// index.
proof fn lemma_last_write_at(t: Tilemap, tiles: Seq<Tile>, k: int, n: int) -> (m: int)
    requires
        0 <= k < n <= tiles.len(),
        last_write_of(t, tiles, k),
    ensures
        ({
            let ws = t.indexed(t.writes_to(tiles.take(n), t.spec_chunk_point(tiles[k].point)));
            &&& 0 <= m < ws.len()
            &&& ws[m] == (tiles[k].sprite_order, t.spec_local_index(tiles[k].point), tiles[k].spec_raw())
            &&& forall|m2: int| m < m2 < ws.len() ==> !(#[trigger] ws[m2].0 == ws[m].0 && ws[m2].1 == ws[m].1)
        }),
    decreases n,
{
    let cp = t.spec_chunk_point(tiles[k].point);
    let pre = tiles.take(n);
    assert(pre.drop_last() =~= tiles.take(n - 1));
    assert(pre.last() == tiles[n - 1]);
    let w0 = t.writes_to(tiles.take(n - 1), cp);
    let ws0 = t.indexed(w0);
    let ws = t.indexed(t.writes_to(pre, cp));
    if n == k + 1 {
        assert(t.writes_to(pre, cp) == w0.push(t.write_of(tiles[k])));
        assert(ws[ws0.len() as int] == (tiles[k].sprite_order, t.spec_local_index(tiles[k].point), tiles[k].spec_raw()));
        ws0.len() as int
    } else {
        let m = lemma_last_write_at(t, tiles, k, n - 1);
        if t.spec_chunk_point(tiles[n - 1].point) == cp {
            assert(t.writes_to(pre, cp) == w0.push(t.write_of(tiles[n - 1])));
            assert forall|i: int| 0 <= i < ws0.len() implies ws[i] == ws0[i] by {}
            assert(ws.len() == ws0.len() + 1);
            let last = ws[ws0.len() as int];
            assert(last == (tiles[n - 1].sprite_order, t.spec_local_index(tiles[n - 1].point), tiles[n - 1].spec_raw()));
            assert(!(last.0 == ws[m].0 && last.1 == ws[m].1));
            assert forall|m2: int| m < m2 < ws.len() implies !(#[trigger] ws[m2].0 == ws[m].0 && ws[m2].1 == ws[m].1) by {
                if m2 < ws0.len() {
                    assert(ws[m2] == ws0[m2]);
                }
            }
        } else {
            assert(t.writes_to(pre, cp) == w0);
        }
        m
    }
}

/// After many tiles have been inserted, each point shows the last tile
/// written to it: the layer of its chunk at that sprite order shows that
/// tile, unless it is transparent, which shows nothing. This holds where
/// the chunk has a layer at the sprite order that stores the tile's index.
pub proof fn lemma_insert_tiles_then_get(before: Tilemap, tiles: Seq<Tile>, after: Tilemap, k: int)
    requires
        before.wf(),
        before.inserted(tiles, after),
        0 <= k < tiles.len(),
        last_write_of(before, tiles, k),
        after.has_chunk(before.spec_chunk_point(tiles[k].point)),
        after.spec_chunk_map()[before.spec_chunk_point(tiles[k].point)].has_layer(tiles[k].sprite_order),
        after.spec_chunk_map()[before.spec_chunk_point(tiles[k].point)].layer(
            tiles[k].sprite_order,
        ).inner.holds_index(before.spec_local_index(tiles[k].point)),
    ensures
        after.spec_tile_at(tiles[k].point, tiles[k].sprite_order) == after.spec_chunk_map()[before.spec_chunk_point(
            tiles[k].point,
        )].layer(tiles[k].sprite_order).inner.shows(tiles[k].spec_raw()),
{
    let tile = tiles[k];
    let cp = before.spec_chunk_point(tile.point);
    let z = tile.sprite_order;
    let idx = before.spec_local_index(tile.point);
    let m = lemma_last_write_at(before, tiles, k, tiles.len() as int);
    assert(tiles.take(tiles.len() as int) =~= tiles);
    let ws = before.indexed(before.writes_to(tiles, cp));
    let c = after.spec_chunk_map()[cp];
    let b = choose|b: Chunk| before.base_chunk(tiles, cp, b) && b.written(c, ws);
    assert(b.written(c, ws));
    assert(c.spec_layers()[z as int] is Some);
    assert(b.spec_layers()[z as int] is Some) by {
        if b.spec_layers()[z as int] is None {
            assert(c.spec_layers()[z as int] is None);
        }
    }
    let l = b.spec_layers()[z as int].unwrap();
    let l2 = c.spec_layers()[z as int].unwrap();
    assert(l.inner.written_gives(l2.inner, ws, z));
    match (l.inner, l2.inner) {
        (LayerKindInner::Dense(a), LayerKindInner::Dense(d)) => {
            lemma_dense_written_len(a.spec_tiles(), ws, z);
            lemma_last_write_dense(a.spec_tiles(), ws, z, m);
        },
        (LayerKindInner::Sparse(a), LayerKindInner::Sparse(d)) => {
            lemma_last_write_sparse(a.spec_tiles(), ws, z, m);
        },
        _ => {},
    }
}

/// A chunk of a well formed tilemap is well formed, sits at its point and
/// has a slot for every sprite layer of the tilemap.
pub proof fn lemma_chunk_of(t: Tilemap, p: Point2)
    requires
        t.wf(),
        t.has_chunk(p),
    ensures
        t.spec_chunk_map()[p].wf(),
        t.spec_chunk_map()[p].spec_point() == p,
        t.spec_chunk_map()[p].spec_layers().len() == t.spec_layers().len(),
{
    let j = choose|j: int| 0 <= j < t.spec_chunks().len() && t.spec_chunks()[j].spec_point() == p;
    lemma_chunks_map_entry(t.spec_chunks(), j);
}

/// A point that none of the tiles falls in takes no writes.
pub proof fn lemma_writes_to_absent(t: Tilemap, tiles: Seq<Tile>, p: Point2)
    requires
        !t.chunk_points_of(tiles).contains(p),
    ensures
        t.writes_to(tiles, p) == Seq::<(usize, Point2, RawTile)>::empty(),
    decreases tiles.len(),
{
    if tiles.len() > 0 {
        let rest = t.chunk_points_of(tiles.drop_last());
        let q = t.spec_chunk_point(tiles.last().point);
        if !rest.contains(q) {
            assert(t.chunk_points_of(tiles) == rest.push(q));
            assert(t.chunk_points_of(tiles)[rest.len() as int] == q);
        }
        assert(!rest.contains(p)) by {
            if rest.contains(p) {
                let k = choose|k: int| 0 <= k < rest.len() && rest[k] == p;
                if !rest.contains(q) {
                    assert(t.chunk_points_of(tiles)[k] == p);
                }
            }
        }
        lemma_writes_to_absent(t, tiles.drop_last(), p);
        assert(q != p) by {
            if q == p {
                if rest.contains(q) {
                } else {
                    assert(t.chunk_points_of(tiles)[rest.len() as int] == q);
                }
            }
        }
    }
}

/// The tile dimensions and the area that the scan over the textures of an
/// atlas settles on: a texture is taken when its area is below the area
/// taken so far, or when the area taken so far is zero.
pub open spec fn smallest_texture(textures: Seq<Dimension2>) -> (Dimension2, int)
    decreases textures.len(),
{
    if textures.len() == 0 {
        (Dimension2::new_spec(0, 0), 0)
    } else {
        let prev = smallest_texture(textures.drop_last());
        let t = textures.last();
        if t.spec_area() < prev.1 || prev.1 == 0 {
            (t, t.spec_area())
        } else {
            prev
        }
    }
}

/// The side of a chunk in tiles for tiles of a side in pixels, so that a
/// chunk covers as many pixels as a chunk of the default size with tiles of
/// the default size; tiles of side zero give the largest chunks.
pub open spec fn auto_chunk_side(tile_side: u32) -> u32 {
    if tile_side == 0 {
        u32::MAX
    } else {
        ((DEFAULT_TEXTURE_SIZE * DEFAULT_CHUNK_SIZE) / tile_side as int) as u32
    }
}

impl Tilemap {
    /// Configures the tile dimensions from the textures of the atlas and the
    /// chunk dimensions from the tile dimensions, if the tilemap is set to
    /// configure itself, and then clears that setting.
    pub fn auto_configure(&mut self, textures: &Vec<Dimension2>)
        requires
            old(self).wf(),
            forall|i: int| 0 <= i < textures@.len() ==> (#[trigger] textures@[i]).spec_area() <= u32::MAX,
            old(self).spec_auto_flags().auto_configure && textures@.len() > 0 ==> smallest_texture(textures@).1 != 0
                && forall|i: int|
                0 <= i < textures@.len() ==> (#[trigger] textures@[i]).spec_area() % smallest_texture(textures@).1 == 0,
        ensures
            final(self).wf(),
            final(self).spec_layers() == old(self).spec_layers(),
            final(self).spec_chunks() == old(self).spec_chunks(),
            final(self).spec_events() == old(self).spec_events(),
            final(self).spec_topology() == old(self).spec_topology(),
            final(self).spec_dimensions() == old(self).spec_dimensions(),
            final(self).spec_texture_atlas() == old(self).spec_texture_atlas(),
            final(self).spec_spawned() == old(self).spec_spawned(),
            !old(self).spec_auto_flags().auto_configure ==> *final(self) == *old(self),
            old(self).spec_auto_flags().auto_configure ==> {
                &&& final(self).spec_tile_dimensions() == smallest_texture(textures@).0
                &&& final(self).spec_chunk_dimensions() == Dimension2::new_spec(
                    auto_chunk_side(smallest_texture(textures@).0.width),
                    auto_chunk_side(smallest_texture(textures@).0.height),
                )
                &&& final(self).spec_auto_flags() == (AutoFlags {
                    auto_configure: false,
                    ..old(self).spec_auto_flags()
                })
            },
    {
        if !self.auto_flags.auto_configure {
            return;
        }
        let mut tile_dimensions = Dimension2::new(0, 0);
        let mut base_size: u32 = 0;
        let mut i: usize = 0;
        while i < textures.len()
            invariant
                i <= textures@.len(),
                forall|k: int| 0 <= k < textures@.len() ==> (#[trigger] textures@[k]).spec_area() <= u32::MAX,
                (tile_dimensions, base_size as int) == smallest_texture(textures@.take(i as int)),
            decreases textures@.len() - i,
        {
            let dimensions = textures[i];
            let size = dimensions.area();
            proof {
                assert(textures@.take(i as int + 1).drop_last() =~= textures@.take(i as int));
                assert(textures@.take(i as int + 1).last() == dimensions);
            }
            if size < base_size || base_size == 0 {
                tile_dimensions = dimensions;
                base_size = size;
            }
            i = i + 1;
        }
        proof {
            assert(textures@.take(textures@.len() as int) =~= textures@);
        }
        let width = if tile_dimensions.width == 0 {
            u32::MAX
        } else {
            (DEFAULT_TEXTURE_SIZE * DEFAULT_CHUNK_SIZE) / tile_dimensions.width
        };
        let height = if tile_dimensions.height == 0 {
            u32::MAX
        } else {
            (DEFAULT_TEXTURE_SIZE * DEFAULT_CHUNK_SIZE) / tile_dimensions.height
        };
        self.tile_dimensions = tile_dimensions;
        self.chunk_dimensions = Dimension2::new(width, height);
        self.auto_flags.auto_configure = false;
    }
}

/// A chunk to spawn, with the attributes of its mesh.
#[derive(Clone, Debug)]
pub struct ChunkSpawn {
    /// The point of the chunk.
    pub point: Point2,
    /// The sprite indexes of the mesh's vertices.
    pub indexes: Vec<usize>,
    /// The colors of the mesh's vertices.
    pub colors: Vec<Color>,
}

/// The points of the spawned chunks once the points have been handled in
/// order: each point not yet spawned is added.
pub open spec fn spawned_after(spawned: Seq<Point2>, points: Seq<Point2>) -> Seq<Point2>
    decreases points.len(),
{
    if points.len() == 0 {
        spawned
    } else {
        let prev = spawned_after(spawned, points.drop_last());
        if prev.contains(points.last()) {
            prev
        } else {
            prev.push(points.last())
        }
    }
}

/// What a tilemap shows once its chunks have been relayered by `f` at a
/// point's chunk: the chunk there has the layers `f` makes of the old ones.
proof fn lemma_relayered_chunk(
    before: Tilemap,
    after: Tilemap,
    f: spec_fn(Seq<Option<SpriteLayer>>) -> Seq<Option<SpriteLayer>>,
    cp: Point2,
)
    requires
        before.wf(),
        before.chunks_relayered(after, f),
    ensures
        after.has_chunk(cp) == before.has_chunk(cp),
        before.has_chunk(cp) ==> before.spec_chunk_map()[cp].with_layers(
            after.spec_chunk_map()[cp],
            f(before.spec_chunk_map()[cp].spec_layers()),
        ),
{
    let s0 = before.spec_chunks();
    let s1 = after.spec_chunks();
    assert forall|j: int| 0 <= j < s0.len() implies (#[trigger] s1[j]).spec_point() == s0[j].spec_point() by {
        assert(s0[j].with_layers(s1[j], f(s0[j].spec_layers())));
    }
    lemma_chunks_same_points(s0, s1);
    assert(after.has_chunk(cp) == before.has_chunk(cp)) by {
        assert(chunks_map(s1).dom().contains(cp) == chunks_map(s0).dom().contains(cp));
    }
    if before.has_chunk(cp) {
        let j = choose|j: int| 0 <= j < s0.len() && chunks_map(s0)[cp] == s0[j] && chunks_map(s1)[cp] == s1[j];
        assert(s0[j].with_layers(s1[j], f(s0[j].spec_layers())));
    }
}

/// Moving a layer moves its tiles: once the layer at `from` has moved to
/// `to`, a point shows at `to` what it showed at `from`, shows nothing at
/// `from`, and shows the same as before at every other sprite order.
pub proof fn lemma_move_layer_then_get(before: Tilemap, after: Tilemap, from: usize, to: usize, p: Point2, z: usize)
    requires
        before.wf(),
        after.same_settings(before),
        from != to,
        before.chunks_relayered(after, |ls: Seq<Option<SpriteLayer>>| moved_layers(ls, from as int, to as int)),
        from < before.spec_layers().len(),
        to < before.spec_layers().len(),
    ensures
        after.spec_tile_at(p, to) == before.spec_tile_at(p, from),
        after.spec_tile_at(p, from) is None,
        z != from && z != to ==> after.spec_tile_at(p, z) == before.spec_tile_at(p, z),
{
    let f = |ls: Seq<Option<SpriteLayer>>| moved_layers(ls, from as int, to as int);
    let cp = before.spec_chunk_point(p);
    lemma_relayered_chunk(before, after, f, cp);
    if before.has_chunk(cp) {
        let c0 = before.spec_chunk_map()[cp];
        lemma_chunk_of(before, cp);
        assert(c0.spec_layers().len() == before.spec_layers().len());
    }
}

/// Removing a layer removes its tiles: once the layer at `z` has been
/// removed, no point shows a tile there, and every other sprite order shows
/// what it showed before.
pub proof fn lemma_remove_layer_then_get(before: Tilemap, after: Tilemap, z: usize, p: Point2, z2: usize)
    requires
        before.wf(),
        after.same_settings(before),
        before.chunks_relayered(after, |ls: Seq<Option<SpriteLayer>>| removed_layer(ls, z as int)),
    ensures
        after.spec_tile_at(p, z) is None,
        z2 != z ==> after.spec_tile_at(p, z2) == before.spec_tile_at(p, z2),
{
    let f = |ls: Seq<Option<SpriteLayer>>| removed_layer(ls, z as int);
    let cp = before.spec_chunk_point(p);
    lemma_relayered_chunk(before, after, f, cp);
}

/// Writing through the reference that `get_tile_mut` gives sets the tile:
/// once a tile shown at a point and sprite order has been overwritten with
/// a tile that is not transparent, the point shows the new tile there, and
/// every other point or sprite order shows what it showed before.
pub proof fn lemma_get_tile_mut_then_get(
    before: Tilemap,
    after: Tilemap,
    point: Point2,
    z: usize,
    tile: RawTile,
    q: Point2,
    z2: usize,
)
    requires
        before.wf(),
        before.spec_tile_at(point, z) is Some,
        before.tile_written(after, point, z, tile),
        !tile.color.spec_is_transparent(),
    ensures
        after.spec_tile_at(point, z) == Some(tile),
        z2 != z || before.spec_chunk_point(q) != before.spec_chunk_point(point) || before.spec_local_index(q)
            != before.spec_local_index(point) ==> after.spec_tile_at(q, z2) == before.spec_tile_at(q, z2),
{
    let cp = before.spec_chunk_point(point);
    let cq = before.spec_chunk_point(q);
    let c0 = before.spec_chunk_map()[cp];
    let c1 = after.spec_chunk_map()[cp];
    let i = before.spec_local_index(point);
    let j = before.spec_local_index(q);
    assert(before.has_chunk(cp));
    assert(c0.has_layer(z));
    assert(after.has_chunk(cp));
    if cq == cp && z2 == z {
        assert(c1.layer(z) == c1.spec_layers()[z as int].unwrap());
    }
}

/// A point never written shows nothing: in a chunk whose layers are all
/// fresh, as `insert_chunk` makes them, every point shows no tile at any
/// sprite order.
pub proof fn lemma_fresh_chunk_shows_nothing(t: Tilemap, p: Point2, z: usize)
    requires
        t.has_chunk(t.spec_chunk_point(p)),
        forall|y: int|
            0 <= y < t.spec_chunk_map()[t.spec_chunk_point(p)].spec_layers().len()
                && #[trigger] t.spec_chunk_map()[t.spec_chunk_point(p)].spec_layers()[y] is Some ==> fresh_layer(
                t.spec_chunk_map()[t.spec_chunk_point(p)].spec_layers()[y].unwrap(),
                t.spec_chunk_map()[t.spec_chunk_point(p)].spec_layers()[y].unwrap().inner.spec_kind(),
                t.chunk_area(),
            ),
    ensures
        t.spec_tile_at(p, z) is None,
{
    let c = t.spec_chunk_map()[t.spec_chunk_point(p)];
    if c.has_layer(z) {
        let l = c.layer(z);
        assert(c.spec_layers()[z as int] is Some);
        assert(fresh_layer(l, l.inner.spec_kind(), t.chunk_area()));
        assert(RawTile::spec_empty().color.spec_is_transparent());
    }
}

/// What was spawned stays spawned, and every handled point is spawned.
proof fn lemma_spawned_after_contains(spawned: Seq<Point2>, points: Seq<Point2>)
    ensures
        forall|x: Point2| spawned.contains(x) ==> #[trigger] spawned_after(spawned, points).contains(x),
        forall|k: int| 0 <= k < points.len() ==> spawned_after(spawned, points).contains(#[trigger] points[k]),
    decreases points.len(),
{
    if points.len() > 0 {
        let prev = points.drop_last();
        lemma_spawned_after_contains(spawned, prev);
        let s0 = spawned_after(spawned, prev);
        let s1 = spawned_after(spawned, points);
        assert forall|x: Point2| s0.contains(x) implies s1.contains(x) by {
            if !s0.contains(points.last()) {
                let i = choose|i: int| 0 <= i < s0.len() && s0[i] == x;
                assert(s1[i] == x);
            }
        }
        assert forall|k: int| 0 <= k < points.len() implies s1.contains(#[trigger] points[k]) by {
            if k < points.len() - 1 {
                assert(prev[k] == points[k]);
                assert(s0.contains(prev[k]));
            } else if !s0.contains(points.last()) {
                assert(s1[s0.len() as int] == points.last());
            }
        }
    }
}

/// Handling spawn requests for points that are all spawned already spawns
/// nothing.
proof fn lemma_spawning_none(t: Tilemap, points: Seq<Point2>)
    requires
        forall|k: int| 0 <= k < points.len() ==> t.spec_spawned().contains(#[trigger] points[k]),
    ensures
        t.spawning(points).len() == 0,
    decreases points.len(),
{
    if points.len() > 0 {
        let prev = points.drop_last();
        assert forall|k: int| 0 <= k < prev.len() implies t.spec_spawned().contains(#[trigger] prev[k]) by {
            assert(prev[k] == points[k]);
        }
        lemma_spawning_none(t, prev);
        lemma_spawned_after_contains(t.spec_spawned(), prev);
        assert(t.spec_spawned().contains(points[points.len() - 1]));
    }
}

/// A chunk is spawned once: once the spawn requests for some points have
/// been handled, handling the same requests again spawns no chunk.
pub proof fn lemma_spawn_handled_once(before: Tilemap, points: Seq<Point2>, after: Tilemap)
    requires
        after.spec_spawned() == spawned_after(before.spec_spawned(), points),
    ensures
        after.spawning(points).len() == 0,
{
    lemma_spawned_after_contains(before.spec_spawned(), points);
    lemma_spawning_none(after, points);
}

/// The layer kinds once the kind at `from` has moved to `to`, leaving
/// `from` empty.
pub open spec fn moved_layers_of(ls: Seq<Option<LayerKind>>, from: int, to: int) -> Seq<Option<LayerKind>> {
    ls.update(from, None).update(to, ls[from])
}

/// The entities of the layers of the chunks, chunk by chunk.
pub open spec fn chunks_entities(chunks: Seq<Chunk>) -> Seq<Entity>
    decreases chunks.len(),
{
    if chunks.len() == 0 {
        Seq::empty()
    } else {
        chunks_entities(chunks.drop_last()) + chunks.last().all_entities()
    }
}

/// The points of the spawn events, in order.
pub open spec fn spawn_points(events: Seq<ChunkEvent>) -> Seq<Point2>
    decreases events.len(),
{
    if events.len() == 0 {
        Seq::empty()
    } else {
        let head = match events[0] {
            ChunkEvent::Spawned { point } => seq![point],
            _ => Seq::empty(),
        };
        head + spawn_points(events.drop_first())
    }
}

/// The layers of the modification events, in order.
pub open spec fn modified_layers(events: Seq<ChunkEvent>) -> Seq<Seq<(usize, Entity)>>
    decreases events.len(),
{
    if events.len() == 0 {
        Seq::empty()
    } else {
        let head = match events[0] {
            ChunkEvent::Modified { layers } => seq![layers@],
            _ => Seq::empty(),
        };
        head + modified_layers(events.drop_first())
    }
}

/// The entities of the despawn events, in order.
pub open spec fn despawned_entities(events: Seq<ChunkEvent>) -> Seq<Seq<Entity>>
    decreases events.len(),
{
    if events.len() == 0 {
        Seq::empty()
    } else {
        let head = match events[0] {
            ChunkEvent::Despawned { entities } => seq![entities@],
            _ => Seq::empty(),
        };
        head + despawned_entities(events.drop_first())
    }
}

/// The chunk events sorted by kind, each kind in the order of the events.
#[derive(Clone, Debug)]
pub struct SortedEvents {
    /// The points of the chunks to spawn.
    pub spawned: Vec<Point2>,
    /// The layers, with their entities, of the chunks modified.
    pub modified: Vec<Vec<(usize, Entity)>>,
    /// The entities of the chunks to despawn.
    pub despawned: Vec<Vec<Entity>>,
}

/// Sorts the chunk events by kind, keeping the order of each kind.
pub fn sort_events(events: Vec<ChunkEvent>) -> (r: SortedEvents)
    ensures
        r.spawned@ == spawn_points(events@),
        r.modified@.len() == modified_layers(events@).len(),
        forall|k: int| 0 <= k < r.modified@.len() ==> (#[trigger] r.modified@[k])@ == modified_layers(events@)[k],
        r.despawned@.len() == despawned_entities(events@).len(),
        forall|k: int| 0 <= k < r.despawned@.len() ==> (#[trigger] r.despawned@[k])@ == despawned_entities(events@)[k],
{
    let ghost all = events@;
    let mut rest = events;
    let mut spawned: Vec<Point2> = Vec::new();
    let mut modified: Vec<Vec<(usize, Entity)>> = Vec::new();
    let mut despawned: Vec<Vec<Entity>> = Vec::new();
    let ghost mv: Seq<Seq<(usize, Entity)>> = Seq::empty();
    let ghost dv: Seq<Seq<Entity>> = Seq::empty();
    while rest.len() > 0
        invariant
            spawned@ + spawn_points(rest@) == spawn_points(all),
            mv + modified_layers(rest@) == modified_layers(all),
            dv + despawned_entities(rest@) == despawned_entities(all),
            modified@.len() == mv.len(),
            forall|k: int| 0 <= k < mv.len() ==> (#[trigger] modified@[k])@ == mv[k],
            despawned@.len() == dv.len(),
            forall|k: int| 0 <= k < dv.len() ==> (#[trigger] despawned@[k])@ == dv[k],
        decreases rest@.len(),
    {
        let ghost r0 = rest@;
        let event = rest.remove(0);
        proof {
            assert(rest@ =~= r0.drop_first());
            assert(event == r0[0]);
        }
        match event {
            ChunkEvent::Spawned { point } => {
                spawned.push(point);
                proof {
                    assert(modified_layers(r0) =~= modified_layers(rest@));
                    assert(despawned_entities(r0) =~= despawned_entities(rest@));
                    assert(spawned@ + spawn_points(rest@) =~= spawn_points(all));
                }
            },
            ChunkEvent::Modified { layers } => {
                proof {
                    mv = mv.push(layers@);
                }
                modified.push(layers);
                proof {
                    assert(spawn_points(r0) =~= spawn_points(rest@));
                    assert(despawned_entities(r0) =~= despawned_entities(rest@));
                    assert(mv + modified_layers(rest@) =~= modified_layers(all));
                }
            },
            ChunkEvent::Despawned { entities } => {
                proof {
                    dv = dv.push(entities@);
                }
                despawned.push(entities);
                proof {
                    assert(spawn_points(r0) =~= spawn_points(rest@));
                    assert(modified_layers(r0) =~= modified_layers(rest@));
                    assert(dv + despawned_entities(rest@) =~= despawned_entities(all));
                }
            },
        }
    }
    proof {
        assert(spawned@ =~= spawn_points(all));
        assert(mv =~= modified_layers(all));
        assert(dv =~= despawned_entities(all));
    }
    SortedEvents { spawned, modified, despawned }
}

impl Tilemap {
    /// The points of the chunks that have been spawned.
    pub fn spawned_chunks(&self) -> (r: &Vec<Point2>)
        ensures
            r@ == self.spec_spawned(),
    {
        &self.spawned
    }

    /// True when every chunk can hand its attributes to the renderer.
    pub open spec fn renderable(self) -> bool {
        forall|p: Point2| #[trigger] self.has_chunk(p) ==> self.spec_chunk_map()[p].renderable(self.spec_chunk_dimensions())
    }

    /// The chunks that handling the spawn requests for the points spawns,
    /// in order: each point not spawned yet, whose chunk exists, once.
    pub open spec fn spawning(self, points: Seq<Point2>) -> Seq<Point2>
        decreases points.len(),
    {
        if points.len() == 0 {
            Seq::empty()
        } else {
            let prev = self.spawning(points.drop_last());
            let p = points.last();
            if spawned_after(self.spec_spawned(), points.drop_last()).contains(p) || !self.has_chunk(p) {
                prev
            } else {
                prev.push(p)
            }
        }
    }

    /// Handles the requests to spawn the chunks at the points: a point not
    /// spawned yet is marked spawned, and if its chunk exists the chunk is
    /// returned with the attributes of all its layers for its mesh.
    pub fn handle_spawned_chunks(&mut self, points: Vec<Point2>) -> (r: Vec<ChunkSpawn>)
        requires
            old(self).wf(),
            old(self).renderable(),
        ensures
            final(self).wf(),
            final(self).spec_spawned() == spawned_after(old(self).spec_spawned(), points@),
            final(self).spec_layers() == old(self).spec_layers(),
            final(self).spec_chunks() == old(self).spec_chunks(),
            final(self).spec_events() == old(self).spec_events(),
            final(self).spec_topology() == old(self).spec_topology(),
            final(self).spec_dimensions() == old(self).spec_dimensions(),
            final(self).spec_chunk_dimensions() == old(self).spec_chunk_dimensions(),
            final(self).spec_tile_dimensions() == old(self).spec_tile_dimensions(),
            final(self).spec_auto_flags() == old(self).spec_auto_flags(),
            final(self).spec_texture_atlas() == old(self).spec_texture_atlas(),
            r@.len() == old(self).spawning(points@).len(),
            forall|k: int|
                0 <= k < r@.len() ==> {
                    let p = old(self).spawning(points@)[k];
                    let c = old(self).spec_chunk_map()[p];
                    let area = old(self).chunk_area() as usize;
                    &&& (#[trigger] r@[k]).point == p
                    &&& r@[k].indexes@ == layers_indexes(c.spec_layers(), area)
                    &&& r@[k].colors@ == layers_colors(c.spec_layers(), area)
                },
    {
        let ghost o = *old(self);
        let mut out: Vec<ChunkSpawn> = Vec::new();
        let mut i: usize = 0;
        while i < points.len()
            invariant
                i <= points@.len(),
                o == *old(self),
                o.wf(),
                o.renderable(),
                self.spec_spawned() == spawned_after(o.spec_spawned(), points@.take(i as int)),
                self.spec_layers() == o.spec_layers(),
                self.spec_chunks() == o.spec_chunks(),
                self.spec_events() == o.spec_events(),
                self.topology == o.topology,
                self.dimensions == o.dimensions,
                self.chunk_dimensions == o.chunk_dimensions,
                self.tile_dimensions == o.tile_dimensions,
                self.auto_flags == o.auto_flags,
                self.texture_atlas == o.texture_atlas,
                out@.len() == o.spawning(points@.take(i as int)).len(),
                forall|k: int|
                    0 <= k < out@.len() ==> {
                        let p = o.spawning(points@.take(i as int))[k];
                        let c = o.spec_chunk_map()[p];
                        let area = o.chunk_area() as usize;
                        &&& (#[trigger] out@[k]).point == p
                        &&& out@[k].indexes@ == layers_indexes(c.spec_layers(), area)
                        &&& out@[k].colors@ == layers_colors(c.spec_layers(), area)
                    },
            decreases points@.len() - i,
        {
            let p = points[i];
            let ghost t0 = points@.take(i as int);
            let ghost t1 = points@.take(i as int + 1);
            proof {
                assert(t1.drop_last() =~= t0);
                assert(t1.last() == p);
            }
            let mut seen = false;
            let mut j: usize = 0;
            while j < self.spawned.len()
                invariant
                    j <= self.spawned@.len(),
                    seen <==> exists|k: int| 0 <= k < j && self.spawned@[k] == p,
                decreases self.spawned@.len() - j,
            {
                if self.spawned[j] == p {
                    seen = true;
                }
                j = j + 1;
            }
            let ghost out0 = out@;
            if !seen {
                self.spawned.push(p);
                match find_chunk(&self.chunks, p) {
                    Some(ci) => {
                        proof {
                            lemma_chunks_map_entry(self.chunks@, ci as int);
                            assert(o.has_chunk(p));
                        }
                        let (indexes, colors) = self.chunks[ci].renderer_parts(self.chunk_dimensions);
                        out.push(ChunkSpawn { point: p, indexes, colors });
                    },
                    None => {
                        proof {
                            assert(!o.has_chunk(p));
                        }
                    },
                }
            }
            proof {
                assert(self.spec_spawned() =~= spawned_after(o.spec_spawned(), t1));
                assert forall|k: int| 0 <= k < out@.len() implies {
                    let q = o.spawning(t1)[k];
                    let c = o.spec_chunk_map()[q];
                    let area = o.chunk_area() as usize;
                    &&& (#[trigger] out@[k]).point == q
                    &&& out@[k].indexes@ == layers_indexes(c.spec_layers(), area)
                    &&& out@[k].colors@ == layers_colors(c.spec_layers(), area)
                } by {
                    if k < out0.len() {
                        assert(out@[k] == out0[k]);
                        assert(o.spawning(t1)[k] == o.spawning(t0)[k]);
                    }
                }
            }
            i = i + 1;
        }
        proof {
            assert(points@.take(points@.len() as int) =~= points@);
        }
        out
    }

    /// Records the entity that the chunk at a point was spawned as; returns
    /// `false` and changes nothing if there is no chunk there.
    pub fn set_chunk_entity(&mut self, point: Point2, entity: Entity) -> (r: bool)
        requires
            old(self).wf(),
        ensures
            final(self).wf(),
            final(self).same_settings(*old(self)),
            final(self).spec_layers() == old(self).spec_layers(),
            final(self).spec_events() == old(self).spec_events(),
            r == old(self).has_chunk(point),
            !r ==> final(self).spec_chunks() == old(self).spec_chunks(),
            r ==> {
                let c0 = old(self).spec_chunk_map()[point];
                let c1 = final(self).spec_chunk_map()[point];
                &&& final(self).spec_chunk_map() == old(self).spec_chunk_map().insert(point, c1)
                &&& c1.spec_entity() == Some(entity)
                &&& c1.spec_point() == c0.spec_point()
                &&& c1.spec_layers() == c0.spec_layers()
            },
    {
        match find_chunk(&self.chunks, point) {
            Some(i) => {
                let ghost s0 = self.chunks@;
                proof {
                    lemma_chunks_map_entry(s0, i as int);
                }
                let c = &mut self.chunks[i];
                c.set_chunk_entity(entity);
                proof {
                    lemma_chunks_map_update(s0, i as int, self.chunks@[i as int]);
                    assert(self.chunks@ == s0.update(i as int, self.chunks@[i as int]));
                }
                true
            },
            None => false,
        }
    }

    /// The attributes of all the layers of the chunk at a point for its
    /// mesh, if the chunk exists.
    pub fn chunk_update(&self, point: Point2) -> (r: Option<(Vec<usize>, Vec<Color>)>)
        requires
            self.wf(),
            self.renderable(),
        ensures
            r is Some <==> self.has_chunk(point),
            r matches Some(parts) ==> parts.0@ == layers_indexes(
                self.spec_chunk_map()[point].spec_layers(),
                self.chunk_area() as usize,
            ) && parts.1@ == layers_colors(self.spec_chunk_map()[point].spec_layers(), self.chunk_area() as usize),
    {
        match find_chunk(&self.chunks, point) {
            Some(ci) => {
                proof {
                    lemma_chunks_map_entry(self.chunks@, ci as int);
                    assert(self.has_chunk(point));
                }
                Some(self.chunks[ci].renderer_parts(self.chunk_dimensions))
            },
            None => None,
        }
    }

    /// The entities of the layers of all the chunks, chunk by chunk, for
    /// showing or hiding them with the tilemap.
    pub fn entities(&self) -> (r: Vec<Entity>)
        ensures
            r@ == chunks_entities(self.spec_chunks()),
    {
        let mut out: Vec<Entity> = Vec::new();
        let mut i: usize = 0;
        while i < self.chunks.len()
            invariant
                i <= self.chunks@.len(),
                out@ == chunks_entities(self.chunks@.take(i as int)),
            decreases self.chunks@.len() - i,
        {
            let mut es = self.chunks[i].get_entities();
            proof {
                let t1 = self.chunks@.take(i as int + 1);
                assert(t1.drop_last() =~= self.chunks@.take(i as int));
                assert(t1.last() == self.chunks@[i as int]);
            }
            out.append(&mut es);
            i = i + 1;
        }
        proof {
            assert(self.chunks@.take(self.chunks@.len() as int) =~= self.chunks@);
        }
        out
    }
}

/// The points that satisfy a predicate, in order.
pub open spec fn keep_points(ps: Seq<Point2>, pred: spec_fn(Point2) -> bool) -> Seq<Point2>
    decreases ps.len(),
{
    if ps.len() == 0 {
        Seq::empty()
    } else {
        let rest = keep_points(ps.drop_last(), pred);
        if pred(ps.last()) {
            rest.push(ps.last())
        } else {
            rest
        }
    }
}

/// The points that keeping by a predicate leaves are the points of the
/// sequence that meet the predicate.
pub proof fn lemma_keep_points_contains(ps: Seq<Point2>, pred: spec_fn(Point2) -> bool, p: Point2)
    ensures
        keep_points(ps, pred).contains(p) <==> ps.contains(p) && pred(p),
    decreases ps.len(),
{
    if ps.len() > 0 {
        let prev = ps.drop_last();
        lemma_keep_points_contains(prev, pred, p);
        let rest = keep_points(prev, pred);
        let kept = keep_points(ps, pred);
        if kept.contains(p) {
            let i = choose|i: int| 0 <= i < kept.len() && kept[i] == p;
            if i < rest.len() {
                assert(rest[i] == p);
                let j = choose|j: int| 0 <= j < prev.len() && prev[j] == p;
                assert(ps[j] == p);
            } else {
                assert(ps[ps.len() - 1] == p);
            }
        }
        if ps.contains(p) && pred(p) {
            let j = choose|j: int| 0 <= j < ps.len() && ps[j] == p;
            if j < prev.len() {
                assert(prev[j] == p);
                let i = choose|i: int| 0 <= i < rest.len() && rest[i] == p;
                assert(kept[i] == p);
            } else {
                assert(kept[rest.len() as int] == p);
            }
        }
    }
}

/// The square of chunks around a center holds exactly the points within
/// the reach of the center on both axes.
pub proof fn lemma_spawn_grid_contains(t: Tilemap, point: Point2, spawn: Dimension2, p: Point2)
    requires
        Tilemap::reach_x(spawn) >= 0,
        Tilemap::reach_y(spawn) >= 0,
        fits_i32(t.spec_chunk_point(point).x - Tilemap::reach_x(spawn)),
        fits_i32(t.spec_chunk_point(point).x + Tilemap::reach_x(spawn)),
        fits_i32(t.spec_chunk_point(point).y - Tilemap::reach_y(spawn)),
        fits_i32(t.spec_chunk_point(point).y + Tilemap::reach_y(spawn)),
    ensures
        t.spawn_grid(point, spawn).contains(p) <==> {
            let c = t.spec_chunk_point(point);
            &&& c.x - Tilemap::reach_x(spawn) <= p.x <= c.x + Tilemap::reach_x(spawn)
            &&& c.y - Tilemap::reach_y(spawn) <= p.y <= c.y + Tilemap::reach_y(spawn)
        },
{
    let c = t.spec_chunk_point(point);
    let rx = Tilemap::reach_x(spawn);
    let ry = Tilemap::reach_y(spawn);
    let w = 2 * rx + 1;
    let g = t.spawn_grid(point, spawn);
    let n = (2 * ry + 1) * w;
    assert(g.len() == n);
    if g.contains(p) {
        let k = choose|k: int| 0 <= k < g.len() && g[k] == p;
        let q = k / w;
        let r = k % w;
        vstd::arithmetic::div_mod::lemma_fundamental_div_mod(k, w);
        assert(0 <= r < w);
        assert(0 <= q < 2 * ry + 1) by (nonlinear_arith)
            requires
                k == w * q + r,
                0 <= r < w,
                0 <= k < (2 * ry + 1) * w,
                w > 0,
        ;
        assert(g[k] == grid_point(c, rx, ry, k));
    }
    if c.x - rx <= p.x <= c.x + rx && c.y - ry <= p.y <= c.y + ry {
        let q = p.y - (c.y - ry);
        let r = p.x - (c.x - rx);
        let k = q * w + r;
        vstd::arithmetic::div_mod::lemma_fundamental_div_mod_converse(k, w, q, r);
        assert(0 <= k < n) by (nonlinear_arith)
            requires
                k == q * w + r,
                0 <= q < 2 * ry + 1,
                0 <= r < w,
                n == (2 * ry + 1) * w,
        ;
        assert(g[k] == grid_point(c, rx, ry, k));
        assert(g[k] == p);
    }
}

/// Automatic spawning despawns exactly the spawned chunks outside the
/// square around the camera's chunk: every chunk it despawns is spawned,
/// exists, lies within the dimensions and lies outside the square, and
/// every such chunk is despawned.
pub proof fn lemma_despawn_targets_outside_square(t: Tilemap, point: Point2, spawn: Dimension2, p: Point2)
    requires
        Tilemap::reach_x(spawn) >= 0 && Tilemap::reach_y(spawn) >= 0 ==> {
            let c = t.spec_chunk_point(point);
            &&& fits_i32(c.x - Tilemap::reach_x(spawn))
            &&& fits_i32(c.x + Tilemap::reach_x(spawn))
            &&& fits_i32(c.y - Tilemap::reach_y(spawn))
            &&& fits_i32(c.y + Tilemap::reach_y(spawn))
        },
    ensures
        t.despawn_targets(point, spawn).contains(p) <==> {
            &&& t.spec_spawned().contains(p)
            &&& t.has_chunk(p)
            &&& !t.out_of_bounds(p)
            &&& !(Tilemap::reach_x(spawn) >= 0 && Tilemap::reach_y(spawn) >= 0 && t.in_spawn_square(point, spawn, p))
        },
{
    let in_range = |q: Point2| t.in_spawn_range(q);
    let pred = |q: Point2| !t.spawn_window(point, spawn).contains(q) && !t.out_of_bounds(q) && t.has_chunk(q);
    lemma_keep_points_contains(t.spec_spawned(), pred, p);
    lemma_keep_points_contains(t.spawn_grid(point, spawn), in_range, p);
    if Tilemap::reach_x(spawn) >= 0 && Tilemap::reach_y(spawn) >= 0 {
        lemma_spawn_grid_contains(t, point, spawn, p);
    } else {
        assert(t.spawn_grid(point, spawn).len() == 0);
        assert(!t.spawn_grid(point, spawn).contains(p));
    }
}

/// The chunk point at flat index `k` of the square of chunks that reaches
/// `rx` chunks left and right and `ry` chunks up and down of a center, row
/// by row from the lowest.
pub open spec fn grid_point(center: Point2, rx: int, ry: int, k: int) -> Point2 {
    Point2 {
        x: (center.x - rx + k % (2 * rx + 1)) as i32,
        y: (center.y - ry + k / (2 * rx + 1)) as i32,
    }
}

impl Tilemap {
    /// How far the spawn square reaches across, in chunks.
    pub open spec fn reach_x(spawn: Dimension2) -> int {
        wrap_i32(spawn.height as int)
    }

    /// How far the spawn square reaches up and down, in chunks.
    pub open spec fn reach_y(spawn: Dimension2) -> int {
        wrap_i32(spawn.width as int)
    }

    /// The chunk points of the spawn square around the chunk of a tile
    /// point, row by row.
    pub open spec fn spawn_grid(self, point: Point2, spawn: Dimension2) -> Seq<Point2> {
        let rx = Tilemap::reach_x(spawn);
        let ry = Tilemap::reach_y(spawn);
        let n = if rx >= 0 && ry >= 0 {
            (2 * ry + 1) * (2 * rx + 1)
        } else {
            0
        };
        Seq::new(n as nat, |k: int| grid_point(self.spec_chunk_point(point), rx, ry, k))
    }

    /// A chunk point lies within the range that automatic spawning keeps
    /// to when the tilemap has dimensions.
    pub open spec fn in_spawn_range(self, p: Point2) -> bool {
        match self.spec_dimensions() {
            Some(d) => {
                let wr = trunc_div(wrap_i32(d.width as int / self.spec_chunk_dimensions().width as int), 2);
                let hr = trunc_div(wrap_i32(d.height as int / self.spec_chunk_dimensions().height as int), 2);
                -wr <= p.x <= wr && -hr <= p.y <= hr
            },
            None => true,
        }
    }

    /// A chunk point lies in the square that automatic spawning keeps
    /// around the chunk of a tile point: within the reach of that chunk on
    /// both axes, and within the range of the dimensions.
    pub open spec fn in_spawn_square(self, point: Point2, spawn: Dimension2, p: Point2) -> bool {
        let c = self.spec_chunk_point(point);
        let rx = Tilemap::reach_x(spawn);
        let ry = Tilemap::reach_y(spawn);
        &&& c.x - rx <= p.x <= c.x + rx
        &&& c.y - ry <= p.y <= c.y + ry
        &&& self.in_spawn_range(p)
    }

    /// The chunk points of the spawn square that automatic spawning keeps.
    pub open spec fn spawn_window(self, point: Point2, spawn: Dimension2) -> Seq<Point2> {
        keep_points(self.spawn_grid(point, spawn), |p: Point2| self.in_spawn_range(p))
    }

    /// The spawned chunks that automatic spawning despawns: those outside
    /// the window, within the dimensions, that exist.
    pub open spec fn despawn_targets(self, point: Point2, spawn: Dimension2) -> Seq<Point2> {
        keep_points(
            self.spec_spawned(),
            |p: Point2| !self.spawn_window(point, spawn).contains(p) && !self.out_of_bounds(p) && self.has_chunk(p),
        )
    }

    /// Asks for the chunks around the chunk of a tile point to be spawned,
    /// within a square that reaches `spawn_dimensions.height` chunks across
    /// and `spawn_dimensions.width` chunks up and down, and for the spawned
    /// chunks outside that square to be despawned.
    pub fn auto_spawn(&mut self, point: Point2, spawn_dimensions: Dimension2)
        requires
            old(self).wf(),
            Tilemap::reach_x(spawn_dimensions) != i32::MIN && Tilemap::reach_x(spawn_dimensions) != i32::MAX,
            Tilemap::reach_y(spawn_dimensions) != i32::MIN && Tilemap::reach_y(spawn_dimensions) != i32::MAX,
            Tilemap::reach_x(spawn_dimensions) >= 0 && Tilemap::reach_y(spawn_dimensions) >= 0 ==> {
                let c = old(self).spec_chunk_point(point);
                &&& fits_i32(c.x - Tilemap::reach_x(spawn_dimensions))
                &&& fits_i32(c.x + Tilemap::reach_x(spawn_dimensions))
                &&& fits_i32(c.y - Tilemap::reach_y(spawn_dimensions))
                &&& fits_i32(c.y + Tilemap::reach_y(spawn_dimensions))
                &&& old(self).spec_dimensions() is Some ==> old(self).spec_chunk_dimensions().width > 0
                    && old(self).spec_chunk_dimensions().height > 0
            },
            old(self).spec_dimensions() matches Some(d) ==> d.width != 0x8000_0000 && d.height != 0x8000_0000,
        ensures
            final(self).wf(),
            final(self).same_settings(*old(self)),
            final(self).spec_layers() == old(self).spec_layers(),
            final(self).spec_chunks() == old(self).spec_chunks(),
            ({
                let n0 = old(self).spec_events().len();
                let spawned = keep_points(
                    old(self).spawn_window(point, spawn_dimensions),
                    |p: Point2| !old(self).out_of_bounds(p) && old(self).has_chunk(p),
                );
                let targets = old(self).despawn_targets(point, spawn_dimensions);
                &&& final(self).spec_events().len() == n0 + spawned.len() + targets.len()
                &&& final(self).spec_events().take(n0 as int) == old(self).spec_events()
                &&& forall|k: int|
                    0 <= k < spawned.len() ==> #[trigger] final(self).spec_events()[n0 + k] == (ChunkEvent::Spawned {
                        point: spawned[k],
                    })
                &&& forall|k: int|
                    0 <= k < targets.len() ==> (#[trigger] final(self).spec_events()[n0 + spawned.len() + k] matches ChunkEvent::Despawned {
                        entities,
                    } && entities@ == old(self).spec_chunk_map()[targets[k]].all_entities())
                &&& forall|k: int|
                    0 <= k < targets.len() ==> old(self).spec_spawned().contains(#[trigger] targets[k]) && !(
                    Tilemap::reach_x(spawn_dimensions) >= 0 && Tilemap::reach_y(spawn_dimensions) >= 0 && old(
                        self,
                    ).in_spawn_square(point, spawn_dimensions, targets[k]))
                &&& forall|p: Point2|
                    old(self).spec_spawned().contains(p) && old(self).has_chunk(p) && !old(self).out_of_bounds(p) && !(
                    Tilemap::reach_x(spawn_dimensions) >= 0 && Tilemap::reach_y(spawn_dimensions) >= 0 && old(
                        self,
                    ).in_spawn_square(point, spawn_dimensions, p)) ==> #[trigger] targets.contains(p)
            }),
    {
        let ghost o = *old(self);
        let (cx, cy) = self.point_to_chunk_point(point);
        let rx = u32_as_i32(spawn_dimensions.height);
        let ry = u32_as_i32(spawn_dimensions.width);
        let ghost grid = o.spawn_grid(point, spawn_dimensions);
        let ghost in_range = |p: Point2| o.in_spawn_range(p);
        let ghost not_out = |p: Point2| !o.out_of_bounds(p) && o.has_chunk(p);
        let ghost n0 = o.spec_events().len();
        let mut new_spawned: Vec<Point2> = Vec::new();
        let ghost mut k: int = 0;
        let mut y: i32 = -ry;
        proof {
            assert((y + ry) * (2 * rx + 1) == 0) by (nonlinear_arith)
                requires
                    y + ry == 0,
            ;
        }
        while y < ry + 1
            invariant
                o == *old(self),
                o.wf(),
                rx == Tilemap::reach_x(spawn_dimensions),
                ry == Tilemap::reach_y(spawn_dimensions),
                rx != i32::MIN && rx != i32::MAX && ry != i32::MIN && ry != i32::MAX,
                cx == o.spec_chunk_point(point).x,
                cy == o.spec_chunk_point(point).y,
                rx >= 0 && ry >= 0 ==> fits_i32(cx - rx) && fits_i32(cx + rx) && fits_i32(cy - ry) && fits_i32(cy + ry)
                    && (o.spec_dimensions() is Some ==> o.spec_chunk_dimensions().width > 0
                    && o.spec_chunk_dimensions().height > 0),
                o.spec_dimensions() matches Some(d) ==> d.width != 0x8000_0000 && d.height != 0x8000_0000,
                grid == o.spawn_grid(point, spawn_dimensions),
                in_range == (|p: Point2| o.in_spawn_range(p)),
                not_out == (|p: Point2| !o.out_of_bounds(p) && o.has_chunk(p)),
                -ry <= y,
                y <= ry + 1 || ry < 0,
                ry >= 0 ==> k == (y + ry) * (2 * rx + 1) || rx < 0,
                rx < 0 ==> k == 0,
                ry < 0 ==> k == 0,
                0 <= k <= grid.len(),
                self.wf(),
                self.same_settings(o),
                self.spec_layers() == o.spec_layers(),
                self.spec_chunks() == o.spec_chunks(),
                self.spec_events().len() == n0 + keep_points(keep_points(grid.take(k), in_range), not_out).len(),
                self.spec_events().take(n0 as int) == o.spec_events(),
                forall|j: int|
                    0 <= j < keep_points(keep_points(grid.take(k), in_range), not_out).len() ==> #[trigger] self.spec_events()[n0
                        + j] == (ChunkEvent::Spawned { point: keep_points(keep_points(grid.take(k), in_range), not_out)[j] }),
                new_spawned@ == keep_points(grid.take(k), in_range),
            decreases ry + 1 - y,
        {
            proof {
                if rx >= 0 {
                    assert((y + ry) * (2 * rx + 1) + (2 * rx + 1) <= (2 * ry + 1) * (2 * rx + 1)) by (nonlinear_arith)
                        requires
                            y <= ry,
                            rx >= 0,
                            -ry <= y,
                    ;
                    assert(grid.len() == (2 * ry + 1) * (2 * rx + 1));
                }
            }
            let mut x: i32 = -rx;
            while x < rx + 1
                invariant
                    o == *old(self),
                    o.wf(),
                    rx == Tilemap::reach_x(spawn_dimensions),
                    ry == Tilemap::reach_y(spawn_dimensions),
                    rx != i32::MIN && rx != i32::MAX && ry != i32::MIN && ry != i32::MAX,
                    -ry <= y < ry + 1,
                    ry >= 0,
                    cx == o.spec_chunk_point(point).x,
                    cy == o.spec_chunk_point(point).y,
                    rx >= 0 ==> fits_i32(cx - rx) && fits_i32(cx + rx) && fits_i32(cy - ry) && fits_i32(cy + ry)
                        && (o.spec_dimensions() is Some ==> o.spec_chunk_dimensions().width > 0
                        && o.spec_chunk_dimensions().height > 0),
                    o.spec_dimensions() matches Some(d) ==> d.width != 0x8000_0000 && d.height != 0x8000_0000,
                    grid == o.spawn_grid(point, spawn_dimensions),
                    in_range == (|p: Point2| o.in_spawn_range(p)),
                    not_out == (|p: Point2| !o.out_of_bounds(p) && o.has_chunk(p)),
                    -rx <= x,
                    x <= rx + 1 || rx < 0,
                    rx >= 0 ==> k == (y + ry) * (2 * rx + 1) + (x + rx),
                    rx < 0 ==> k == 0,
                    0 <= k <= grid.len(),
                    rx >= 0 ==> (y + ry) * (2 * rx + 1) + (2 * rx + 1) <= grid.len(),
                    self.wf(),
                    self.same_settings(o),
                    self.spec_layers() == o.spec_layers(),
                    self.spec_chunks() == o.spec_chunks(),
                    self.spec_events().len() == n0 + keep_points(keep_points(grid.take(k), in_range), not_out).len(),
                    self.spec_events().take(n0 as int) == o.spec_events(),
                    forall|j: int|
                        0 <= j < keep_points(keep_points(grid.take(k), in_range), not_out).len() ==> #[trigger] self.spec_events()[n0
                            + j] == (ChunkEvent::Spawned { point: keep_points(keep_points(grid.take(k), in_range), not_out)[j] }),
                    new_spawned@ == keep_points(grid.take(k), in_range),
                decreases rx + 1 - x,
            {
                let chunk_x = x + cx;
                let chunk_y = y + cy;
                let p = Point2::new(chunk_x, chunk_y);
                let ghost g0 = grid.take(k);
                let ghost g1 = grid.take(k + 1);
                proof {
                    vstd::arithmetic::div_mod::lemma_fundamental_div_mod_converse(
                        k,
                        2 * rx + 1,
                        y + ry,
                        x + rx,
                    );
                    assert(k < grid.len());
                    assert(grid[k] == p);
                    assert(g1.drop_last() =~= g0);
                    assert(g1.last() == p);
                }
                let mut keep = true;
                match self.width() {
                    Some(width) => {
                        let w2 = u32_as_i32(width / self.chunk_width()) / 2;
                        if chunk_x < -w2 || chunk_x > w2 {
                            keep = false;
                        }
                    },
                    None => {},
                }
                match self.height() {
                    Some(height) => {
                        let h2 = u32_as_i32(height / self.chunk_height()) / 2;
                        if chunk_y < -h2 || chunk_y > h2 {
                            keep = false;
                        }
                    },
                    None => {},
                }
                proof {
                    assert(keep == o.in_spawn_range(p));
                }
                let ghost ev0 = self.spec_events();
                if keep {
                    let _ = self.spawn_chunk(p);
                    new_spawned.push(p);
                }
                proof {
                    let s0 = keep_points(g0, in_range);
                    let s1 = keep_points(g1, in_range);
                    assert(s1 == if keep { s0.push(p) } else { s0 });
                    let t0 = keep_points(s0, not_out);
                    let t1 = keep_points(s1, not_out);
                    if keep {
                        assert(s1.drop_last() =~= s0);
                        assert(s1.last() == p);
                        assert(t1 == if !o.out_of_bounds(p) && o.has_chunk(p) { t0.push(p) } else { t0 });
                    }
                    assert forall|j: int| 0 <= j < t1.len() implies #[trigger] self.spec_events()[n0 + j]
                        == (ChunkEvent::Spawned { point: t1[j] }) by {
                        if j < t0.len() {
                            assert(self.spec_events()[n0 + j] == ev0[n0 + j]);
                        }
                    }
                    assert(self.spec_events().take(n0 as int) =~= o.spec_events()) by {
                        assert forall|j: int| 0 <= j < n0 implies self.spec_events()[j] == ev0[j] by {}
                        assert forall|j: int| 0 <= j < n0 implies ev0[j] == ev0.take(n0 as int)[j] by {}
                    }
                    k = k + 1;
                }
                x = x + 1;
            }
            proof {
                if rx < 0 {
                    assert(k == 0);
                }
                assert((y + 1 + ry) * (2 * rx + 1) == (y + ry) * (2 * rx + 1) + (2 * rx + 1)) by (nonlinear_arith);
            }
            y = y + 1;
        }
        proof {
            assert(grid.take(k) =~= grid) by {
                if rx >= 0 && ry >= 0 {
                    assert(k == (2 * ry + 1) * (2 * rx + 1)) by (nonlinear_arith)
                        requires
                            k == (y + ry) * (2 * rx + 1),
                            y == ry + 1,
                    ;
                }
            }
        }
        let ghost window = o.spawn_window(point, spawn_dimensions);
        let ghost spawned_events = keep_points(window, not_out);
        let ghost n1 = n0 + spawned_events.len();
        let ghost ev_spawn = self.spec_events();
        proof {
            assert(window == keep_points(grid, in_range));
        }
        let ghost pred = |p: Point2| !o.spawn_window(point, spawn_dimensions).contains(p) && !o.out_of_bounds(p) && o.has_chunk(p);
        let mut i: usize = 0;
        while i < self.spawned.len()
            invariant
                o == *old(self),
                o.wf(),
                o.spec_dimensions() matches Some(d) ==> d.width != 0x8000_0000 && d.height != 0x8000_0000,
                window == o.spawn_window(point, spawn_dimensions),
                new_spawned@ == window,
                pred == (|p: Point2| !o.spawn_window(point, spawn_dimensions).contains(p) && !o.out_of_bounds(p) && o.has_chunk(p)),
                self.wf(),
                self.same_settings(o),
                self.spec_layers() == o.spec_layers(),
                self.spec_chunks() == o.spec_chunks(),
                self.spawned@ == o.spec_spawned(),
                i <= self.spawned@.len(),
                self.spec_events().len() == n1 + keep_points(o.spec_spawned().take(i as int), pred).len(),
                ev_spawn.len() == n1,
                ev_spawn.take(n0 as int) == o.spec_events(),
                n1 == n0 + spawned_events.len(),
                forall|m: int| 0 <= m < spawned_events.len() ==> #[trigger] ev_spawn[n0 + m] == (ChunkEvent::Spawned { point: spawned_events[m] }),
                self.spec_events().take(n1 as int) == ev_spawn,
                forall|j: int|
                    0 <= j < keep_points(o.spec_spawned().take(i as int), pred).len() ==> (#[trigger] self.spec_events()[n1 + j] matches ChunkEvent::Despawned {
                        entities,
                    } && entities@ == o.spec_chunk_map()[keep_points(o.spec_spawned().take(i as int), pred)[j]].all_entities()),
            decreases self.spawned@.len() - i,
        {
            let p = self.spawned[i];
            let mut inside = false;
            let mut j: usize = 0;
            while j < new_spawned.len()
                invariant
                    j <= new_spawned@.len(),
                    inside <==> exists|m: int| 0 <= m < j && new_spawned@[m] == p,
                decreases new_spawned@.len() - j,
            {
                if new_spawned[j] == p {
                    inside = true;
                }
                j = j + 1;
            }
            let ghost ev0 = self.spec_events();
            let ghost sp0 = o.spec_spawned().take(i as int);
            let ghost sp1 = o.spec_spawned().take(i as int + 1);
            proof {
                assert(sp1.drop_last() =~= sp0);
                assert(sp1.last() == p);
                assert(inside == window.contains(p));
            }
            if !inside {
                let _ = self.despawn_chunk(p);
            }
            proof {
                let d0 = keep_points(sp0, pred);
                let d1 = keep_points(sp1, pred);
                assert(d1 == if pred(p) { d0.push(p) } else { d0 });
                assert forall|m: int| 0 <= m < d1.len() implies (#[trigger] self.spec_events()[n1 + m] matches ChunkEvent::Despawned {
                    entities,
                } && entities@ == o.spec_chunk_map()[d1[m]].all_entities()) by {
                    if m < d0.len() {
                        assert(self.spec_events()[n1 + m] == ev0[n1 + m]);
                    }
                }
                assert(self.spec_events().take(n1 as int) =~= ev0.take(n1 as int)) by {
                    assert forall|m: int| 0 <= m < n1 implies self.spec_events()[m] == ev0[m] by {}
                }
            }
            i = i + 1;
        }
        proof {
            assert(o.spec_spawned().take(o.spec_spawned().len() as int) =~= o.spec_spawned());
            assert(o.despawn_targets(point, spawn_dimensions) == keep_points(o.spec_spawned(), pred));
            let targets = o.despawn_targets(point, spawn_dimensions);
            assert forall|k: int| 0 <= k < targets.len() implies o.spec_spawned().contains(#[trigger] targets[k]) && !(
                Tilemap::reach_x(spawn_dimensions) >= 0 && Tilemap::reach_y(spawn_dimensions) >= 0
                    && o.in_spawn_square(point, spawn_dimensions, targets[k])) by {
                assert(targets.contains(targets[k]));
                lemma_despawn_targets_outside_square(o, point, spawn_dimensions, targets[k]);
            }
            assert forall|p: Point2|
                o.spec_spawned().contains(p) && o.has_chunk(p) && !o.out_of_bounds(p) && !(Tilemap::reach_x(
                    spawn_dimensions,
                ) >= 0 && Tilemap::reach_y(spawn_dimensions) >= 0 && o.in_spawn_square(point, spawn_dimensions, p))
                    implies #[trigger] targets.contains(p) by {
                lemma_despawn_targets_outside_square(o, point, spawn_dimensions, p);
            }
            assert forall|m: int| 0 <= m < spawned_events.len() implies #[trigger] self.spec_events()[n0 + m] == (ChunkEvent::Spawned { point: spawned_events[m] }) by {
                assert(self.spec_events().take(n1 as int)[n0 + m] == ev_spawn[n0 + m]);
            }
            assert(self.spec_events().take(n0 as int) =~= o.spec_events()) by {
                assert forall|m: int| 0 <= m < n0 implies self.spec_events()[m] == o.spec_events()[m] by {
                    assert(self.spec_events().take(n1 as int)[m] == ev_spawn[m]);
                    assert(ev_spawn.take(n0 as int)[m] == ev_spawn[m]);
                }
            }
        }
    }
}

/// Tilemap factory, which can be used to construct and configure new
/// tilemaps. The texture atlas is required for `finish` to succeed.
#[derive(Clone, Debug)]
pub struct TilemapBuilder {
    topology: GridTopology,
    dimensions: Option<Dimension2>,
    chunk_dimensions: Dimension2,
    tile_dimensions: Dimension2,
    z_layers: usize,
    layers: Option<IndexMap<LayerKind>>,
    texture_atlas: Option<AtlasHandle>,
    auto_flags: AutoFlags,
}

impl TilemapBuilder {
    /// The topology that the tilemap will have.
    pub closed spec fn spec_topology(self) -> GridTopology {
        self.topology
    }

    /// The dimensions in chunks that the tilemap will have, if any.
    pub closed spec fn spec_dimensions(self) -> Option<Dimension2> {
        self.dimensions
    }

    /// The chunk dimensions that the tilemap will have.
    pub closed spec fn spec_chunk_dimensions(self) -> Dimension2 {
        self.chunk_dimensions
    }

    /// The tile dimensions that the tilemap will have.
    pub closed spec fn spec_tile_dimensions(self) -> Dimension2 {
        self.tile_dimensions
    }

    /// The number of sprite layers asked for.
    pub closed spec fn spec_z_layers(self) -> usize {
        self.z_layers
    }

    /// The sprite layers added, by sprite order, if any were.
    pub closed spec fn spec_added_layers(self) -> Option<Map<usize, LayerKind>> {
        match self.layers {
            Some(m) => Some(m.spec_map()),
            None => None,
        }
    }

    /// The map of added layers is well formed.
    pub closed spec fn wf(self) -> bool {
        self.layers matches Some(m) ==> m.wf()
    }

    /// The texture atlas, if it was set.
    pub closed spec fn spec_texture_atlas(self) -> Option<AtlasHandle> {
        self.texture_atlas
    }

    /// The flags of the automated features.
    pub closed spec fn spec_auto_flags(self) -> AutoFlags {
        self.auto_flags
    }

    /// The builder has the default settings.
    pub open spec fn is_default(self) -> bool {
        &&& self.wf()
        &&& self.spec_topology() == GridTopology::Square
        &&& self.spec_dimensions() is None
        &&& self.spec_chunk_dimensions() == Dimension2::new_spec(DEFAULT_CHUNK_SIZE, DEFAULT_CHUNK_SIZE)
        &&& self.spec_tile_dimensions() == Dimension2::new_spec(DEFAULT_TEXTURE_SIZE, DEFAULT_TEXTURE_SIZE)
        &&& self.spec_z_layers() == DEFAULT_Z_LAYERS
        &&& self.spec_added_layers() is None
        &&& self.spec_texture_atlas() is None
        &&& self.spec_auto_flags() == AutoFlags::spec_none()
    }

    /// Configures the builder with the default settings.
    pub fn new() -> (b: TilemapBuilder)
        ensures
            b.is_default(),
    {
        TilemapBuilder {
            topology: GridTopology::Square,
            dimensions: None,
            chunk_dimensions: Dimension2::new(DEFAULT_CHUNK_SIZE, DEFAULT_CHUNK_SIZE),
            tile_dimensions: Dimension2::new(DEFAULT_TEXTURE_SIZE, DEFAULT_TEXTURE_SIZE),
            z_layers: DEFAULT_Z_LAYERS,
            layers: None,
            texture_atlas: None,
            auto_flags: AutoFlags::none(),
        }
    }

    /// The number of sprite layers added.
    pub open spec fn added_count(self) -> nat {
        match self.spec_added_layers() {
            Some(m) => m.dom().len(),
            None => 0,
        }
    }

    /// The number of sprite layer slots that `finish` gives the tilemap:
    /// the number asked for, or the number of layers added if that is
    /// more.
    pub open spec fn slot_count(self) -> nat {
        if self.spec_z_layers() > self.added_count() {
            self.spec_z_layers() as nat
        } else {
            self.added_count()
        }
    }

    /// The sprite layers that `finish` gives the tilemap: an added layer
    /// at its sprite order where that is below the slot count, no layer
    /// elsewhere.
    pub open spec fn finished_layers(self) -> Seq<Option<LayerKind>> {
        Seq::new(
            self.slot_count(),
            |z: int|
                match self.spec_added_layers() {
                    Some(m) => if m.contains_key(z as usize) {
                        Some(m[z as usize])
                    } else {
                        None
                    },
                    None => None,
                },
        )
    }

    /// Sets the topology of the tilemap.
    pub fn topology(self, topology: GridTopology) -> (b: TilemapBuilder)
        requires
            self.wf(),
        ensures
            b.wf(),
            b.spec_topology() == topology,
            b.spec_dimensions() == self.spec_dimensions(),
            b.spec_chunk_dimensions() == self.spec_chunk_dimensions(),
            b.spec_tile_dimensions() == self.spec_tile_dimensions(),
            b.spec_z_layers() == self.spec_z_layers(),
            b.spec_added_layers() == self.spec_added_layers(),
            b.spec_texture_atlas() == self.spec_texture_atlas(),
            b.spec_auto_flags() == self.spec_auto_flags(),
    {
        let mut b = self;
        b.topology = topology;
        b
    }

    /// Sets the dimensions of the tilemap in chunks.
    pub fn dimensions(self, width: u32, height: u32) -> (b: TilemapBuilder)
        requires
            self.wf(),
        ensures
            b.wf(),
            b.spec_topology() == self.spec_topology(),
            b.spec_dimensions() == Some(Dimension2::new_spec(width, height)),
            b.spec_chunk_dimensions() == self.spec_chunk_dimensions(),
            b.spec_tile_dimensions() == self.spec_tile_dimensions(),
            b.spec_z_layers() == self.spec_z_layers(),
            b.spec_added_layers() == self.spec_added_layers(),
            b.spec_texture_atlas() == self.spec_texture_atlas(),
            b.spec_auto_flags() == self.spec_auto_flags(),
    {
        let mut b = self;
        b.dimensions = Some(Dimension2::new(width, height));
        b
    }

    /// Sets the chunk dimensions in tiles.
    pub fn chunk_dimensions(self, width: u32, height: u32) -> (b: TilemapBuilder)
        requires
            self.wf(),
        ensures
            b.wf(),
            b.spec_topology() == self.spec_topology(),
            b.spec_dimensions() == self.spec_dimensions(),
            b.spec_chunk_dimensions() == Dimension2::new_spec(width, height),
            b.spec_tile_dimensions() == self.spec_tile_dimensions(),
            b.spec_z_layers() == self.spec_z_layers(),
            b.spec_added_layers() == self.spec_added_layers(),
            b.spec_texture_atlas() == self.spec_texture_atlas(),
            b.spec_auto_flags() == self.spec_auto_flags(),
    {
        let mut b = self;
        b.chunk_dimensions = Dimension2::new(width, height);
        b
    }

    /// Sets the tile dimensions in pixels.
    pub fn tile_dimensions(self, width: u32, height: u32) -> (b: TilemapBuilder)
        requires
            self.wf(),
        ensures
            b.wf(),
            b.spec_topology() == self.spec_topology(),
            b.spec_dimensions() == self.spec_dimensions(),
            b.spec_chunk_dimensions() == self.spec_chunk_dimensions(),
            b.spec_tile_dimensions() == Dimension2::new_spec(width, height),
            b.spec_z_layers() == self.spec_z_layers(),
            b.spec_added_layers() == self.spec_added_layers(),
            b.spec_texture_atlas() == self.spec_texture_atlas(),
            b.spec_auto_flags() == self.spec_auto_flags(),
    {
        let mut b = self;
        b.tile_dimensions = Dimension2::new(width, height);
        b
    }

    /// Sets the number of sprite layers that tiles can be on.
    pub fn z_layers(self, layers: usize) -> (b: TilemapBuilder)
        requires
            self.wf(),
        ensures
            b.wf(),
            b.spec_topology() == self.spec_topology(),
            b.spec_dimensions() == self.spec_dimensions(),
            b.spec_chunk_dimensions() == self.spec_chunk_dimensions(),
            b.spec_tile_dimensions() == self.spec_tile_dimensions(),
            b.spec_z_layers() == layers,
            b.spec_added_layers() == self.spec_added_layers(),
            b.spec_texture_atlas() == self.spec_texture_atlas(),
            b.spec_auto_flags() == self.spec_auto_flags(),
    {
        let mut b = self;
        b.z_layers = layers;
        b
    }

    /// Adds a sprite layer of a kind at a sprite order; a layer added
    /// again at the same sprite order replaces the earlier one.
    pub fn add_layer(self, kind: LayerKind, z_layer: usize) -> (b: TilemapBuilder)
        requires
            self.wf(),
        ensures
            b.wf(),
            b.spec_topology() == self.spec_topology(),
            b.spec_dimensions() == self.spec_dimensions(),
            b.spec_chunk_dimensions() == self.spec_chunk_dimensions(),
            b.spec_tile_dimensions() == self.spec_tile_dimensions(),
            b.spec_z_layers() == self.spec_z_layers(),
            b.spec_added_layers() == Some(
                match self.spec_added_layers() {
                    Some(m) => m,
                    None => Map::<usize, LayerKind>::empty(),
                }.insert(z_layer, kind),
            ),
            b.spec_texture_atlas() == self.spec_texture_atlas(),
            b.spec_auto_flags() == self.spec_auto_flags(),
    {
        let mut b = self;
        let mut layers = match b.layers {
            Some(m) => m,
            None => IndexMap::new(),
        };
        layers.insert(z_layer, kind);
        b.layers = Some(layers);
        b
    }

    /// Sets the texture atlas, which `finish` requires.
    pub fn texture_atlas(self, handle: AtlasHandle) -> (b: TilemapBuilder)
        requires
            self.wf(),
        ensures
            b.wf(),
            b.spec_topology() == self.spec_topology(),
            b.spec_dimensions() == self.spec_dimensions(),
            b.spec_chunk_dimensions() == self.spec_chunk_dimensions(),
            b.spec_tile_dimensions() == self.spec_tile_dimensions(),
            b.spec_z_layers() == self.spec_z_layers(),
            b.spec_added_layers() == self.spec_added_layers(),
            b.spec_texture_atlas() == Some(handle),
            b.spec_auto_flags() == self.spec_auto_flags(),
    {
        let mut b = self;
        b.texture_atlas = Some(handle);
        b
    }

    /// Sets the tilemap to configure its tile and chunk dimensions from its
    /// texture atlas.
    pub fn auto_configure(self) -> (b: TilemapBuilder)
        requires
            self.wf(),
        ensures
            b.wf(),
            b.spec_topology() == self.spec_topology(),
            b.spec_dimensions() == self.spec_dimensions(),
            b.spec_chunk_dimensions() == self.spec_chunk_dimensions(),
            b.spec_tile_dimensions() == self.spec_tile_dimensions(),
            b.spec_z_layers() == self.spec_z_layers(),
            b.spec_added_layers() == self.spec_added_layers(),
            b.spec_texture_atlas() == self.spec_texture_atlas(),
            b.spec_auto_flags() == (AutoFlags {
                auto_configure: true,
                ..self.spec_auto_flags()
            }),
    {
        let mut b = self;
        b.auto_flags.auto_configure = true;
        b
    }

    /// Sets the tilemap to create chunks for tiles inserted where no chunk
    /// exists.
    pub fn auto_chunk(self) -> (b: TilemapBuilder)
        requires
            self.wf(),
        ensures
            b.wf(),
            b.spec_topology() == self.spec_topology(),
            b.spec_dimensions() == self.spec_dimensions(),
            b.spec_chunk_dimensions() == self.spec_chunk_dimensions(),
            b.spec_tile_dimensions() == self.spec_tile_dimensions(),
            b.spec_z_layers() == self.spec_z_layers(),
            b.spec_added_layers() == self.spec_added_layers(),
            b.spec_texture_atlas() == self.spec_texture_atlas(),
            b.spec_auto_flags() == (AutoFlags {
                auto_chunk: true,
                ..self.spec_auto_flags()
            }),
    {
        let mut b = self;
        b.auto_flags.auto_chunk = true;
        b
    }

    /// Consumes the builder and makes the tilemap: its settings are the
    /// builder's, it has no chunks and no events, and its sprite layers are
    /// those added where they have a slot.
    ///
    /// # Errors
    ///
    /// If the texture atlas was not set, an error is returned.
    pub fn finish(self) -> (r: TilemapResult<Tilemap>)
        requires
            self.wf(),
        ensures
            r is Err <==> self.spec_texture_atlas() is None,
            r matches Err(e) ==> e.spec_kind() == TilemapErrorKind::MissingTextureAtlas,
            r matches Ok(t) ==> {
                &&& t.wf()
                &&& t.spec_topology() == self.spec_topology()
                &&& t.spec_dimensions() == self.spec_dimensions()
                &&& t.spec_chunk_dimensions() == self.spec_chunk_dimensions()
                &&& t.spec_tile_dimensions() == self.spec_tile_dimensions()
                &&& t.spec_auto_flags() == self.spec_auto_flags()
                &&& Some(t.spec_texture_atlas()) == self.spec_texture_atlas()
                &&& t.spec_layers() == self.finished_layers()
                &&& t.spec_chunks().len() == 0
                &&& t.spec_events().len() == 0
                &&& t.spec_spawned().len() == 0
            },
    {
        let texture_atlas = match self.texture_atlas {
            Some(atlas) => atlas,
            None => {
                return Err(TilemapError::new(TilemapErrorKind::MissingTextureAtlas));
            },
        };
        let z_layers: usize = match &self.layers {
            Some(layers) => {
                let ks = layers.keys();
                proof {
                    ks@.unique_seq_to_set();
                }
                if self.z_layers > layers.len() {
                    self.z_layers
                } else {
                    layers.len()
                }
            },
            None => self.z_layers,
        };
        let mut slots: Vec<Option<LayerKind>> = Vec::new();
        let mut i: usize = 0;
        while i < z_layers
            invariant
                i <= z_layers,
                slots@.len() == i,
                forall|k: int| 0 <= k < i ==> slots@[k] is None,
            decreases z_layers - i,
        {
            slots.push(None);
            i = i + 1;
        }
        let mut tilemap = Tilemap {
            topology: self.topology,
            dimensions: self.dimensions,
            chunk_dimensions: self.chunk_dimensions,
            tile_dimensions: self.tile_dimensions,
            layers: slots,
            auto_flags: self.auto_flags,
            texture_atlas,
            chunks: Vec::new(),
            events: Vec::new(),
            spawned: Vec::new(),
        };
        match &self.layers {
            Some(layers) => {
                let ghost es = layers.spec_entries();
                let mut j: usize = 0;
                while j < layers.len()
                    invariant
                        j <= es.len(),
                        es == layers.spec_entries(),
                        layers.wf(),
                        tilemap.wf(),
                        tilemap.spec_chunks().len() == 0,
                        tilemap.spec_events().len() == 0,
                        tilemap.spec_spawned().len() == 0,
                        tilemap.spec_topology() == self.spec_topology(),
                        tilemap.spec_dimensions() == self.spec_dimensions(),
                        tilemap.spec_chunk_dimensions() == self.spec_chunk_dimensions(),
                        tilemap.spec_tile_dimensions() == self.spec_tile_dimensions(),
                        tilemap.spec_auto_flags() == self.spec_auto_flags(),
                        Some(tilemap.spec_texture_atlas()) == self.spec_texture_atlas(),
                        tilemap.spec_layers().len() == z_layers,
                        forall|k: int|
                            0 <= k < z_layers ==> #[trigger] tilemap.spec_layers()[k] == if exists|m: int|
                                0 <= m < j && es[m].0 == k {
                                Some(es[choose|m: int| 0 <= m < j && es[m].0 == k].1)
                            } else {
                                None
                            },
                    decreases es.len() - j,
                {
                    let (z, kind) = layers.entry(j);
                    let ghost before = tilemap;
                    proof {
                        if (z as int) < z_layers {
                            assert(!exists|m: int| 0 <= m < j && es[m].0 == z) by {
                                if exists|m: int| 0 <= m < j && es[m].0 == z {
                                    let m = choose|m: int| 0 <= m < j && es[m].0 == z;
                                    assert(es[m].0 == es[j as int].0);
                                }
                            }
                            assert(tilemap.spec_layers()[z as int] is None);
                        }
                    }
                    let r = tilemap.add_layer_with_kind(kind, z);
                    proof {
                        assert forall|k: int| 0 <= k < z_layers implies #[trigger] tilemap.spec_layers()[k] == if exists|m: int|
                            0 <= m < j + 1 && es[m].0 == k {
                            Some(es[choose|m: int| 0 <= m < j + 1 && es[m].0 == k].1)
                        } else {
                            None
                        } by {
                            if k == z as int {
                                assert(es[j as int].0 == k);
                                let m = choose|m: int| 0 <= m < j + 1 && es[m].0 == k;
                                assert(m == j as int) by {
                                    if m != j as int {
                                        assert(es[m].0 == es[j as int].0);
                                    }
                                }
                            } else {
                                assert(tilemap.spec_layers()[k] == before.spec_layers()[k]);
                                if exists|m: int| 0 <= m < j + 1 && es[m].0 == k {
                                    let m = choose|m: int| 0 <= m < j + 1 && es[m].0 == k;
                                    assert(m < j);
                                    assert(exists|m2: int| 0 <= m2 < j && es[m2].0 == k);
                                    let m2 = choose|m2: int| 0 <= m2 < j && es[m2].0 == k;
                                    assert(m2 == m) by {
                                        if m2 != m {
                                            assert(es[m2].0 == es[m].0);
                                        }
                                    }
                                } else {
                                    assert(!exists|m2: int| 0 <= m2 < j && es[m2].0 == k) by {
                                        if exists|m2: int| 0 <= m2 < j && es[m2].0 == k {
                                            let m2 = choose|m2: int| 0 <= m2 < j && es[m2].0 == k;
                                            assert(0 <= m2 < j + 1 && es[m2].0 == k);
                                        }
                                    }
                                }
                            }
                        }
                    }
                    j = j + 1;
                }
                proof {
                    let m = layers.spec_map();
                    assert(z_layers as nat == self.slot_count());
                    assert forall|k: int| 0 <= k < z_layers implies #[trigger] tilemap.spec_layers()[k]
                        == self.finished_layers()[k] by {
                        if exists|q: int| 0 <= q < es.len() && es[q].0 == k {
                            let q = choose|q: int| 0 <= q < es.len() && es[q].0 == k;
                            crate::index_map::lemma_map_of_entry(es, q);
                            assert(m.contains_key(k as usize));
                        } else {
                            assert(!m.contains_key(k as usize)) by {
                                if m.contains_key(k as usize) {
                                    let q = choose|q: int| 0 <= q < es.len() && es[q].0 == k as usize;
                                }
                            }
                        }
                    }
                    assert(tilemap.spec_layers() =~= self.finished_layers());
                }
            },
            None => {
                proof {
                    assert(tilemap.spec_layers() =~= self.finished_layers());
                }
            },
        }
        Ok(tilemap)
    }
}

impl Default for Tilemap {
    /// A tilemap with the default configuration and the texture atlas of
    /// identifier zero.
    fn default() -> (t: Tilemap)
        ensures
            t.is_default_with(AtlasHandle { id: 0 }),
    {
        Tilemap::new(AtlasHandle { id: 0 })
    }
}

impl Default for TilemapBuilder {
    fn default() -> (b: TilemapBuilder)
        ensures
            b.is_default(),
    {
        TilemapBuilder::new()
    }
}

} // verus!
