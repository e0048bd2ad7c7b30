use bevy_tilemap::dimension::{Dimension2, Dimension3, ErrorKind};
use bevy_tilemap::layer::LayerKind;
use bevy_tilemap::point::{Point2, Point3};
use bevy_tilemap::render::GridTopology;
use bevy_tilemap::tile::{AtlasHandle, Color, Entity, RawTile, Tile};
use bevy_tilemap::tilemap::{sort_events, ChunkEvent, Tilemap, TilemapBuilder, TilemapErrorKind};

fn atlas() -> AtlasHandle {
    AtlasHandle { id: 7 }
}

fn white() -> Color {
    Color::white()
}

fn f32_bytes(v: u32) -> [u8; 4] {
    v.to_le_bytes()
}

/// The tint that the tilemap stores for a red tint: red, green, blue and
/// alpha as linear floating point values.
fn red() -> Color {
    Color::from_bits(0.99999994f32.to_bits(), 0, 0, 1.0f32.to_bits())
}

#[test]
fn insert_chunks() {
    let mut tilemap = Tilemap::new(atlas());

    tilemap.insert_chunk(Point2::new(0, 0)).unwrap();
    tilemap.insert_chunk(Point2::new(1, -1)).unwrap();
    tilemap.insert_chunk(Point2::new(1, 1)).unwrap();
    tilemap.insert_chunk(Point2::new(-1, -1)).unwrap();
}

#[test]
fn insert_and_spawn_chunk() {
    let mut tilemap = TilemapBuilder::new().texture_atlas(atlas()).tile_dimensions(32, 32).finish().unwrap();

    tilemap.insert_chunk(Point2::new(0, 0)).unwrap();
    tilemap.insert_chunk(Point2::new(1, 1)).unwrap();
    tilemap.insert_chunk(Point2::new(-1, -1)).unwrap();
    tilemap.spawn_chunk(Point2::new(0, 0)).unwrap();
    tilemap.spawn_chunk(Point2::new(1, 1)).unwrap();
    tilemap.spawn_chunk(Point2::new(-1, -1)).unwrap();

    // One update of the systems: the spawn events give one mesh and one
    // child entity per chunk.
    let events = sort_events(tilemap.take_events());
    let spawns = tilemap.handle_spawned_chunks(events.spawned);
    let meshes = spawns.len();
    assert_eq!(meshes, 3);
    let mut children = Vec::new();
    for (n, spawn) in spawns.iter().enumerate() {
        let entity = Entity { id: 100 + n as u64 };
        assert!(tilemap.set_chunk_entity(spawn.point, entity));
        children.push(entity);
    }
    assert_eq!(children.len(), 3);

    // Despawn one: its entity goes, two are left.
    tilemap.despawn_chunk(Point2::new(-1, -1)).unwrap();
    let events = sort_events(tilemap.take_events());
    for entities in events.despawned.iter() {
        children.retain(|e| !entities.contains(e));
    }
    assert_eq!(children.len(), 2);
}

#[test]
fn test_chunk_update() {
    let mut tilemap = TilemapBuilder::new()
        .texture_atlas(atlas())
        .tile_dimensions(32, 32)
        .dimensions(1, 1)
        .chunk_dimensions(5, 5)
        .auto_chunk()
        .z_layers(1)
        .finish()
        .unwrap();

    let tile_points = vec![
        Point2::new(-2, -2),
        Point2::new(-2, 2),
        Point2::new(2, -2),
        Point2::new(2, 2),
        Point2::new(0, 0),
    ];
    for tile_point in &tile_points {
        tilemap.insert_tile(Tile::with_z_order_and_tint(*tile_point, 1, 0, red())).unwrap();
        tilemap.spawn_chunk(Point2::new(0, 0)).unwrap();
    }

    let events = sort_events(tilemap.take_events());
    let spawns = tilemap.handle_spawned_chunks(events.spawned);
    assert_eq!(spawns.len(), 1);

    let (indexes, colors) = tilemap.chunk_update(Point2::new(0, 0)).unwrap();
    // The chunk dimensions in three dimensions, one layer deep.
    let chunk_dimensions = Dimension3::new(tilemap.chunk_dimensions().width, tilemap.chunk_dimensions().height, 1);
    let tile_index: Vec<u8> = indexes.iter().flat_map(|i| (*i as f32).to_le_bytes()).collect();
    assert_eq!(tile_index.len(), 5 * 5 * 4 * 4);

    for tile_point in &tile_points {
        let tile_point = *tile_point + Point2::new(2, 2);
        let index = chunk_dimensions.encode_point(Point3::new(tile_point.x(), tile_point.y(), 0)).unwrap() * 4 * 4;
        let mut bytes = Vec::with_capacity(4);
        for x in 0..4 {
            let byte = tile_index.get(index + x).unwrap();
            bytes.push(*byte);
        }
        assert_eq!(bytes, [0, 0, 128, 63]);
    }

    let tile_colors: Vec<u8> = colors
        .iter()
        .flat_map(|c| {
            let mut v = Vec::new();
            v.extend_from_slice(&f32_bytes(c.r));
            v.extend_from_slice(&f32_bytes(c.g));
            v.extend_from_slice(&f32_bytes(c.b));
            v.extend_from_slice(&f32_bytes(c.a));
            v
        })
        .collect();
    assert_eq!(tile_colors.len(), 5 * 5 * 4 * 4 * 4);

    for tile_point in tile_points {
        let tile_point = tile_point + Point2::new(2, 2);
        let index = chunk_dimensions.encode_point(Point3::new(tile_point.x(), tile_point.y(), 0)).unwrap() * 4 * 4 * 4;
        let mut bytes = Vec::with_capacity(4 * 4);
        for x in 0..(4 * 4) {
            let byte = tile_colors.get(index + x).unwrap();
            bytes.push(*byte);
        }
        assert_eq!(bytes, [255, 255, 127, 63, 0, 0, 0, 0, 0, 0, 0, 0, 0, 0, 128, 63]);
    }
}

#[test]
fn builder_needs_a_texture_atlas() {
    assert!(TilemapBuilder::new().texture_atlas(atlas()).finish().is_ok());
    let err = TilemapBuilder::new().finish().unwrap_err();
    assert_eq!(err.kind(), TilemapErrorKind::MissingTextureAtlas);
}

#[test]
fn builder_settings_reach_the_tilemap() {
    let tilemap = TilemapBuilder::new()
        .texture_atlas(atlas())
        .topology(GridTopology::HexX)
        .dimensions(32, 64)
        .chunk_dimensions(8, 16)
        .tile_dimensions(4, 2)
        .finish()
        .unwrap();
    assert_eq!(tilemap.topology(), GridTopology::HexX);
    assert_eq!(tilemap.width(), Some(32));
    assert_eq!(tilemap.height(), Some(64));
    assert_eq!(tilemap.chunk_width(), 8);
    assert_eq!(tilemap.chunk_height(), 16);
    assert_eq!(tilemap.tile_width(), 4);
    assert_eq!(tilemap.tile_height(), 2);
    assert_eq!(*tilemap.texture_atlas(), atlas());
    assert_eq!(tilemap.layer_count(), 20);

    let tilemap = Tilemap::new(atlas());
    assert_eq!(tilemap.width(), None);
    assert_eq!(tilemap.height(), None);
}

#[test]
fn builder_layers_take_more_slots() {
    let tilemap = TilemapBuilder::new()
        .texture_atlas(atlas())
        .z_layers(1)
        .add_layer(LayerKind::Dense, 0)
        .add_layer(LayerKind::Sparse, 1)
        .add_layer(LayerKind::Sparse, 2)
        .finish()
        .unwrap();
    assert_eq!(tilemap.layer_count(), 3);
}

#[test]
fn auto_flags_enable() {
    let mut tilemap = TilemapBuilder::new().texture_atlas(atlas()).auto_chunk().auto_chunk().finish().unwrap();
    // Enabled twice: chunks are still made.
    assert!(tilemap.insert_tile(Tile::new(Point2::new(0, 0), 1)).is_ok());
    assert!(tilemap.contains_chunk(Point2::new(0, 0)));
    let mut tilemap = TilemapBuilder::new().texture_atlas(atlas()).finish().unwrap();
    let r = tilemap.insert_tile(Tile::new(Point2::new(0, 0), 1));
    assert_eq!(r.unwrap_err().kind(), TilemapErrorKind::MissingChunk);
}

#[test]
fn default_tilemap_has_twenty_layers() {
    let mut tilemap = TilemapBuilder::new().texture_atlas(atlas()).finish().unwrap();
    assert_eq!(tilemap.layer_count(), 20);
    tilemap.insert_chunk(Point2::new(0, 0)).unwrap();
    assert!(tilemap.insert_tile(Tile::with_z_order_and_tint(Point2::new(0, 0), 1, 19, white())).is_ok());
    assert!(tilemap.insert_tile(Tile::with_z_order_and_tint(Point2::new(0, 0), 1, 20, white())).is_err());
}

#[test]
fn insert_chunk_checks_the_dimensions() {
    let mut tilemap = TilemapBuilder::new().texture_atlas(atlas()).dimensions(3, 3).finish().unwrap();

    assert!(tilemap.insert_chunk(Point2::new(0, 0)).is_ok());
    assert!(tilemap.insert_chunk(Point2::new(1, 1)).is_ok());
    let err = tilemap.insert_chunk(Point2::new(-2, -2)).unwrap_err();
    match err.kind() {
        TilemapErrorKind::DimensionError(e) => assert_eq!(e.kind(), ErrorKind::OutOfBounds),
        other => panic!("unexpected error {:?}", other),
    }

    assert!(tilemap.contains_chunk(Point2::new(0, 0)));
    assert!(tilemap.contains_chunk(Point2::new(1, 1)));
    assert!(!tilemap.contains_chunk(Point2::new(-2, -2)));
}

#[test]
fn insert_chunk_twice_is_an_error() {
    let mut tilemap = Tilemap::new(atlas());
    assert!(tilemap.insert_chunk(Point2::new(0, 0)).is_ok());
    tilemap.insert_tile(Tile::new(Point2::new(1, 1), 7)).unwrap();
    let err = tilemap.insert_chunk(Point2::new(0, 0)).unwrap_err();
    assert_eq!(err.kind(), TilemapErrorKind::ChunkAlreadyExists(Point2::new(0, 0)));
    assert!(tilemap.contains_chunk(Point2::new(0, 0)));
    // The chunk is kept with its tiles.
    assert_eq!(tilemap.get_tile(Point2::new(1, 1), 0), Some(&RawTile { index: 7, color: white() }));
}

#[test]
fn move_layer_moves_the_tiles() {
    let mut tilemap = Tilemap::new(atlas());
    tilemap.insert_chunk(Point2::new(0, 0)).unwrap();
    tilemap.insert_tile(Tile::new(Point2::new(2, 3), 5)).unwrap();
    assert_eq!(tilemap.move_layer(4, 6).unwrap_err().kind(), TilemapErrorKind::LayerDoesNotExist(4));
    assert_eq!(tilemap.move_layer(40, 6).unwrap_err().kind(), TilemapErrorKind::LayerDoesNotExist(40));
    assert!(tilemap.move_layer(0, 6).is_ok());
    assert_eq!(tilemap.get_tile(Point2::new(2, 3), 0), None);
    assert_eq!(tilemap.get_tile(Point2::new(2, 3), 6), Some(&RawTile { index: 5, color: white() }));
    assert!(tilemap.add_layer(0).is_ok());
}

#[test]
fn remove_layer_removes_the_tiles() {
    let mut tilemap = Tilemap::new(atlas());
    tilemap.insert_chunk(Point2::new(0, 0)).unwrap();
    tilemap.insert_tile(Tile::new(Point2::new(2, 3), 5)).unwrap();
    tilemap.remove_layer(0);
    assert_eq!(tilemap.get_tile(Point2::new(2, 3), 0), None);
    tilemap.remove_layer(100);
}

#[test]
fn spawn_chunk_without_a_chunk_asks_nothing() {
    let mut tilemap = Tilemap::new(atlas());
    assert!(tilemap.spawn_chunk(Point2::new(4, 4)).is_ok());
    assert!(tilemap.take_events().is_empty());
}

#[test]
fn insert_tiles_checks_the_dimensions() {
    let mut tilemap = TilemapBuilder::new().texture_atlas(atlas()).dimensions(1, 1).auto_chunk().finish().unwrap();
    let err = tilemap.insert_tile(Tile::new(Point2::new(32, 0), 1)).unwrap_err();
    match err.kind() {
        TilemapErrorKind::DimensionError(e) => assert_eq!(e.kind(), ErrorKind::OutOfBounds),
        other => panic!("unexpected error {:?}", other),
    }
    assert!(!tilemap.contains_chunk(Point2::new(1, 0)));
    let tiles = vec![Tile::new(Point2::new(0, 0), 1), Tile::new(Point2::new(0, -40), 1)];
    assert!(tilemap.insert_tiles(tiles).is_err());
    assert!(!tilemap.contains_chunk(Point2::new(0, 0)));
    assert!(tilemap.insert_tile(Tile::new(Point2::new(0, 0), 1)).is_ok());
    assert!(tilemap.clear_tile(Point2::new(0, 40), 0).is_err());
}

#[test]
fn defaults() {
    let tilemap = Tilemap::default();
    assert_eq!(tilemap.layer_count(), 20);
    assert_eq!(tilemap.width(), None);
    let tilemap = TilemapBuilder::default().texture_atlas(atlas()).finish().unwrap();
    assert_eq!(tilemap.chunk_width(), 32);
    assert_eq!(tilemap.tile_width(), 32);
    assert_eq!(tilemap.topology(), GridTopology::Square);
    assert!(!tilemap.auto_flags().auto_chunk);
}

#[test]
fn add_layer_twice_is_an_error() {
    let mut tilemap = Tilemap::new(atlas());
    assert!(tilemap.add_layer_with_kind(LayerKind::Sparse, 1).is_ok());
    assert_eq!(tilemap.add_layer_with_kind(LayerKind::Sparse, 1).unwrap_err().kind(), TilemapErrorKind::LayerExists(1));
    assert!(tilemap.add_layer(2).is_ok());
    assert_eq!(tilemap.add_layer(2).unwrap_err().kind(), TilemapErrorKind::LayerExists(2));
}

#[test]
fn move_layer_into_an_empty_slot() {
    let mut tilemap = TilemapBuilder::new().texture_atlas(atlas()).z_layers(3).finish().unwrap();

    tilemap.add_layer(0).unwrap();
    tilemap.add_layer(3).unwrap();

    assert!(tilemap.move_layer(0, 2).is_ok());
    assert_eq!(tilemap.move_layer(3, 2).unwrap_err().kind(), TilemapErrorKind::LayerExists(2));
}

#[test]
fn remove_layer_clears_the_slot() {
    let mut tilemap = Tilemap::new(atlas());
    tilemap.add_layer(1).unwrap();
    tilemap.remove_layer(1);
    assert!(tilemap.add_layer(1).is_ok());
}

#[test]
fn spawn_chunk_checks_the_dimensions() {
    let mut tilemap = TilemapBuilder::new().texture_atlas(atlas()).dimensions(1, 1).finish().unwrap();
    tilemap.insert_chunk(Point2::new(0, 0)).unwrap();
    assert!(tilemap.spawn_chunk(Point2::new(0, 0)).is_ok());
    assert!(tilemap.spawn_chunk(Point2::new(1, 1)).is_err());
    assert!(tilemap.spawn_chunk(Point2::new(-1, -1)).is_err());
    let events = tilemap.take_events();
    assert_eq!(events.len(), 1);
    match &events[0] {
        ChunkEvent::Spawned { point } => assert_eq!(*point, Point2::new(0, 0)),
        other => panic!("unexpected event {:?}", other),
    }
}

#[test]
fn spawn_chunk_containing_point_uses_the_chunk_point() {
    let mut tilemap = TilemapBuilder::new()
        .texture_atlas(atlas())
        .chunk_dimensions(32, 32)
        .dimensions(1, 1)
        .finish()
        .unwrap();
    let point = Point2::new(15, 15);
    let _ = tilemap.insert_tile(Tile::new(point, 0));
    assert!(tilemap.spawn_chunk_containing_point(point).is_ok());
    assert!(tilemap.spawn_chunk_containing_point(Point2::new(16, 16)).is_err());
    assert!(tilemap.spawn_chunk_containing_point(Point2::new(-18, -18)).is_err());
}

#[test]
fn despawn_and_remove_chunks() {
    let mut tilemap = TilemapBuilder::new().texture_atlas(atlas()).dimensions(3, 3).finish().unwrap();
    assert!(tilemap.insert_chunk(Point2::new(0, 0)).is_ok());
    assert!(tilemap.insert_chunk(Point2::new(1, 1)).is_ok());
    assert!(tilemap.spawn_chunk(Point2::new(0, 0)).is_ok());
    assert!(tilemap.despawn_chunk(Point2::new(0, 0)).is_ok());
    assert!(tilemap.despawn_chunk(Point2::new(-2, -2)).is_err());

    assert!(tilemap.remove_chunk(Point2::new(0, 0)).is_ok());
    assert!(tilemap.remove_chunk(Point2::new(1, 1)).is_ok());
    assert!(tilemap.remove_chunk(Point2::new(-2, -2)).is_err());
    assert!(!tilemap.contains_chunk(Point2::new(0, 0)));
    assert!(!tilemap.contains_chunk(Point2::new(1, 1)));
}

#[test]
fn point_to_chunk_point_rounds_to_centered_chunks() {
    let tilemap = Tilemap::new(atlas());
    assert_eq!(tilemap.point_to_chunk_point(Point2::new(15, 15)), (0, 0));
    assert_eq!(tilemap.point_to_chunk_point(Point2::new(16, 16)), (1, 1));
    assert_eq!(tilemap.point_to_chunk_point(Point2::new(-16, -16)), (-0, -0));
    assert_eq!(tilemap.point_to_chunk_point(Point2::new(-17, -17)), (-1, -1));
}

#[test]
fn point_to_chunk_point_of_zero_sized_chunks_saturates() {
    let tilemap = TilemapBuilder::new().texture_atlas(atlas()).chunk_dimensions(0, 0).finish().unwrap();
    assert_eq!(tilemap.point_to_chunk_point(Point2::new(5, -5)), (i32::MAX, i32::MIN));
    assert_eq!(tilemap.point_to_chunk_point(Point2::new(0, 0)), (0, 0));
}

#[test]
fn center_tile_coord_of_dimensions() {
    let tilemap = TilemapBuilder::new().texture_atlas(atlas()).dimensions(32, 32).finish().unwrap();
    assert_eq!(tilemap.center_tile_coord(), Some((512, 512)));
    let tilemap = Tilemap::new(atlas());
    assert_eq!(tilemap.center_tile_coord(), None);
}

#[test]
fn insert_tiles_then_get_them() {
    let mut tilemap = TilemapBuilder::new().texture_atlas(atlas()).dimensions(1, 1).finish().unwrap();
    tilemap.insert_chunk(Point2::new(0, 0)).unwrap();
    let tiles = vec![Tile::new(Point2::new(1, 1), 0), Tile::new(Point2::new(2, 2), 1), Tile::new(Point2::new(3, 3), 2)];
    tilemap.insert_tiles(tiles).unwrap();

    assert_eq!(tilemap.get_tile(Point2::new(1, 1), 0), Some(&RawTile { index: 0, color: white() }));
    assert_eq!(tilemap.get_tile(Point2::new(2, 2), 0), Some(&RawTile { index: 1, color: white() }));
    assert_eq!(tilemap.get_tile(Point2::new(3, 3), 0), Some(&RawTile { index: 2, color: white() }));
    assert_eq!(tilemap.get_tile(Point2::new(4, 4), 0), None);
}

#[test]
fn insert_tile_then_get_it() {
    let mut tilemap = Tilemap::new(atlas());
    tilemap.insert_chunk(Point2::new(0, 0)).unwrap();
    let tile = Tile::new(Point2::new(9, 3), 3);
    assert!(tilemap.insert_tile(tile).is_ok());
    assert_eq!(tilemap.get_tile(Point2::new(9, 3), 0), Some(&RawTile { index: 3, color: white() }));
    assert_eq!(tilemap.get_tile(Point2::new(10, 4), 0), None);
}

#[test]
fn insert_tile_reports_the_modified_chunk() {
    let mut tilemap = Tilemap::new(atlas());
    tilemap.insert_chunk(Point2::new(0, 0)).unwrap();
    tilemap.insert_tile(Tile::new(Point2::new(1, 1), 3)).unwrap();
    let events = sort_events(tilemap.take_events());
    assert_eq!(events.modified.len(), 1);
    assert!(events.spawned.is_empty());
    assert!(events.despawned.is_empty());
}

#[test]
fn insert_tile_on_a_missing_layer_slot() {
    let mut tilemap = Tilemap::new(atlas());
    tilemap.insert_chunk(Point2::new(0, 0)).unwrap();
    let tile = Tile::with_z_order_and_tint(Point2::new(1, 1), 3, 25, white());
    assert_eq!(tilemap.insert_tile(tile).unwrap_err().kind(), TilemapErrorKind::LayerDoesNotExist(25));
}

#[test]
fn insert_tile_without_its_chunk() {
    let mut tilemap = Tilemap::new(atlas());
    let err = tilemap.insert_tile(Tile::new(Point2::new(100, 100), 3)).unwrap_err();
    assert_eq!(err.kind(), TilemapErrorKind::MissingChunk);
}

#[test]
fn insert_tile_makes_its_chunk() {
    let mut tilemap = TilemapBuilder::new().texture_atlas(atlas()).auto_chunk().finish().unwrap();
    assert!(tilemap.insert_tile(Tile::new(Point2::new(100, 100), 3)).is_ok());
    assert!(tilemap.contains_chunk(Point2::new(3, 3)));
    assert_eq!(tilemap.get_tile(Point2::new(100, 100), 0), Some(&RawTile { index: 3, color: white() }));
}

#[test]
fn sparse_layers_drop_cleared_tiles() {
    let mut tilemap = Tilemap::new(atlas());
    tilemap.add_layer_with_kind(LayerKind::Sparse, 1).unwrap();
    tilemap.insert_chunk(Point2::new(0, 0)).unwrap();
    let point = Point2::new(2, 1);
    assert_eq!(tilemap.get_tile(point, 1), None);
    tilemap.insert_tile(Tile::with_z_order_and_tint(point, 4, 1, white())).unwrap();
    assert_eq!(tilemap.get_tile(point, 1), Some(&RawTile { index: 4, color: white() }));
    tilemap.clear_tile(point, 1).unwrap();
    assert_eq!(tilemap.get_tile(point, 1), None);
}

#[test]
fn clear_tiles_then_get_none() {
    let mut tilemap = Tilemap::new(atlas());
    assert!(tilemap.insert_chunk(Point2::new(0, 0)).is_ok());
    let tiles = vec![Tile::new(Point2::new(1, 1), 0), Tile::new(Point2::new(2, 2), 0), Tile::new(Point2::new(3, 3), 0)];
    assert!(tilemap.insert_tiles(tiles).is_ok());
    let to_remove = vec![(Point2::new(1, 1), 0), (Point2::new(2, 2), 0)];
    tilemap.clear_tiles(to_remove).unwrap();
    assert_eq!(tilemap.get_tile(Point2::new(1, 1), 0), None);
    assert_eq!(tilemap.get_tile(Point2::new(2, 2), 0), None);
    assert_eq!(tilemap.get_tile(Point2::new(3, 3), 0), Some(&RawTile { index: 0, color: white() }));
}

#[test]
fn clear_tile_then_get_none() {
    let mut tilemap = Tilemap::new(atlas());
    assert!(tilemap.insert_chunk(Point2::new(0, 0)).is_ok());
    let point = Point2::new(3, 1);
    assert!(tilemap.insert_tile(Tile::new(point, 1)).is_ok());
    assert!(tilemap.clear_tile(point, 0).is_ok());
    assert_eq!(tilemap.get_tile(Point2::new(3, 1), 0), None);
}

#[test]
fn get_tile_mut_writes_through() {
    let mut tilemap = Tilemap::new(atlas());
    tilemap.insert_chunk(Point2::new(0, 0)).unwrap();
    let point = Point2::new(2, 5);
    assert!(tilemap.insert_tile(Tile::new(point, 2)).is_ok());
    assert_eq!(tilemap.get_tile_mut(point, 0), Some(&mut RawTile { index: 2, color: white() }));
    assert_eq!(tilemap.get_tile_mut(Point2::new(1, 4), 0), None);
    if let Some(tile) = tilemap.get_tile_mut(point, 0) {
        tile.index = 9;
    }
    assert_eq!(tilemap.get_tile(point, 0), Some(&RawTile { index: 9, color: white() }));
}

#[test]
fn tiles_of_other_chunks_stay() {
    let mut tilemap = Tilemap::new(atlas());
    tilemap.insert_chunk(Point2::new(0, 0)).unwrap();
    tilemap.insert_chunk(Point2::new(1, 0)).unwrap();
    tilemap.insert_tile(Tile::new(Point2::new(1, 1), 5)).unwrap();
    tilemap.insert_tile(Tile::new(Point2::new(33, 1), 6)).unwrap();
    assert_eq!(tilemap.get_tile(Point2::new(1, 1), 0), Some(&RawTile { index: 5, color: white() }));
    assert_eq!(tilemap.get_tile(Point2::new(33, 1), 0), Some(&RawTile { index: 6, color: white() }));
}

#[test]
fn auto_configure_picks_the_smallest_texture() {
    let mut tilemap = TilemapBuilder::new().texture_atlas(atlas()).auto_configure().finish().unwrap();
    let textures = vec![Dimension2::new(32, 32), Dimension2::new(16, 16), Dimension2::new(64, 32)];
    tilemap.auto_configure(&textures);
    assert_eq!(tilemap.tile_dimensions(), Dimension2::new(16, 16));
    assert_eq!(tilemap.chunk_dimensions(), Dimension2::new(64, 64));
    // The setting is cleared: a second call changes nothing.
    tilemap.auto_configure(&vec![Dimension2::new(8, 8)]);
    assert_eq!(tilemap.tile_dimensions(), Dimension2::new(16, 16));
}

#[test]
fn auto_configure_rounds_chunk_sides_down() {
    let mut tilemap = TilemapBuilder::new().texture_atlas(atlas()).auto_configure().finish().unwrap();
    tilemap.auto_configure(&vec![Dimension2::new(3, 7)]);
    assert_eq!(tilemap.chunk_dimensions(), Dimension2::new(341, 146));
}

#[test]
fn auto_configure_without_the_setting() {
    let mut tilemap = Tilemap::new(atlas());
    tilemap.auto_configure(&vec![Dimension2::new(16, 16)]);
    assert_eq!(tilemap.tile_dimensions(), Dimension2::new(32, 32));
    assert_eq!(tilemap.chunk_dimensions(), Dimension2::new(32, 32));
}

#[test]
fn handle_spawned_chunks_spawns_once() {
    let mut tilemap = Tilemap::new(atlas());
    tilemap.insert_chunk(Point2::new(0, 0)).unwrap();
    let spawns = tilemap.handle_spawned_chunks(vec![Point2::new(0, 0), Point2::new(0, 0), Point2::new(4, 4)]);
    assert_eq!(spawns.len(), 1);
    assert_eq!(spawns[0].point, Point2::new(0, 0));
    assert_eq!(tilemap.spawned_chunks(), &vec![Point2::new(0, 0), Point2::new(4, 4)]);
    let spawns = tilemap.handle_spawned_chunks(vec![Point2::new(0, 0)]);
    assert!(spawns.is_empty());
}

#[test]
fn auto_spawn_spawns_around_and_despawns_the_rest() {
    let mut tilemap = Tilemap::new(atlas());
    tilemap.insert_chunk(Point2::new(5, 5)).unwrap();
    tilemap.insert_chunk(Point2::new(-1, -1)).unwrap();
    tilemap.insert_chunk(Point2::new(0, 0)).unwrap();
    tilemap.insert_chunk(Point2::new(1, 1)).unwrap();
    tilemap.handle_spawned_chunks(vec![Point2::new(5, 5)]);
    tilemap.take_events();
    tilemap.auto_spawn(Point2::new(0, 0), Dimension2::new(1, 1));
    let events = sort_events(tilemap.take_events());
    // Only the chunks of the window that exist are asked to spawn.
    assert_eq!(events.spawned, vec![Point2::new(-1, -1), Point2::new(0, 0), Point2::new(1, 1)]);
    assert_eq!(events.despawned.len(), 1);
}

#[test]
fn sort_events_keeps_the_order_of_each_kind() {
    let events = vec![
        ChunkEvent::Spawned { point: Point2::new(1, 2) },
        ChunkEvent::Despawned { entities: vec![Entity { id: 3 }] },
        ChunkEvent::Modified { layers: vec![(0, Entity { id: 4 })] },
        ChunkEvent::Spawned { point: Point2::new(3, 4) },
    ];
    let sorted = sort_events(events);
    assert_eq!(sorted.spawned, vec![Point2::new(1, 2), Point2::new(3, 4)]);
    assert_eq!(sorted.despawned, vec![vec![Entity { id: 3 }]]);
    assert_eq!(sorted.modified, vec![vec![(0, Entity { id: 4 })]]);
}

#[test]
fn entities_of_all_chunks() {
    let mut tilemap = Tilemap::new(atlas());
    tilemap.insert_chunk(Point2::new(0, 0)).unwrap();
    tilemap.insert_chunk(Point2::new(1, 0)).unwrap();
    assert!(tilemap.set_chunk_entity(Point2::new(1, 0), Entity { id: 11 }));
    assert!(!tilemap.set_chunk_entity(Point2::new(2, 0), Entity { id: 12 }));
    assert_eq!(tilemap.entities(), vec![Entity { id: 11 }]);
}

#[test]
fn z_layers_gives_that_many_sprite_orders() {
    let mut tilemap = TilemapBuilder::new().texture_atlas(atlas()).z_layers(3).finish().unwrap();
    assert_eq!(tilemap.layer_count(), 3);
    tilemap.insert_chunk(Point2::new(0, 0)).unwrap();
    assert!(tilemap.insert_tile(Tile::with_z_order_and_tint(Point2::new(0, 0), 1, 2, white())).is_ok());
    assert_eq!(
        tilemap.insert_tile(Tile::with_z_order_and_tint(Point2::new(0, 0), 1, 3, white())).unwrap_err().kind(),
        TilemapErrorKind::LayerDoesNotExist(3)
    );
}

#[test]
fn insert_tiles_keeps_the_last_tile_of_a_point() {
    let mut tilemap = Tilemap::new(atlas());
    tilemap.insert_chunk(Point2::new(0, 0)).unwrap();
    let tiles = vec![Tile::new(Point2::new(1, 2), 4), Tile::new(Point2::new(3, 3), 6), Tile::new(Point2::new(1, 2), 5)];
    tilemap.insert_tiles(tiles).unwrap();
    assert_eq!(tilemap.get_tile(Point2::new(1, 2), 0), Some(&RawTile { index: 5, color: white() }));
    assert_eq!(tilemap.get_tile(Point2::new(3, 3), 0), Some(&RawTile { index: 6, color: white() }));
    assert_eq!(tilemap.get_tile(Point2::new(0, 3), 0), None);
    tilemap.clear_tile(Point2::new(1, 2), 0).unwrap();
    assert_eq!(tilemap.get_tile(Point2::new(3, 3), 0), Some(&RawTile { index: 6, color: white() }));
}

#[test]
fn move_layer_into_a_free_slot_succeeds() {
    let mut tilemap = TilemapBuilder::new().texture_atlas(atlas()).z_layers(3).finish().unwrap();
    tilemap.add_layer(0).unwrap();
    tilemap.add_layer(3).unwrap();
    assert_eq!(tilemap.move_layer(0, 2), Ok(()));
    assert!(tilemap.move_layer(3, 2).is_err());
}
