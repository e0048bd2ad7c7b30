use bevy_tilemap::dimension::{Dimension2, Dimension3, DimensionError, ErrorKind};
use bevy_tilemap::dimensions::{Dimensions2, Dimensions3};
use bevy_tilemap::map::{ErrorKind as MapErrorKind, MapError};
use bevy_tilemap::mesh::ChunkMesh;
use bevy_tilemap::point::{Point2, Point3};
use bevy_tilemap::tile::{Color, Tile};
use bevy_tilemap::tile_setter::TileSetter;

#[test]
fn dimension2_bounds() {
    let d = Dimension2::new(5, 4);
    assert_eq!(d.area(), 20);
    assert_eq!(d.x_min(), -2);
    assert_eq!(d.y_min(), -2);
    assert_eq!(d.x_max(), 2);
    assert_eq!(d.y_max(), 2);
    assert_eq!(d.center(), Point2::new(2, 2));
    assert!(d.check_point(Point2::new(2, -2)).is_ok());
    assert_eq!(d.check_point(Point2::new(3, 0)).unwrap_err().kind(), ErrorKind::OutOfBounds);
    assert!(d.check_index(19).is_ok());
    assert!(d.check_index(20).is_err());
}

#[test]
fn dimension2_encode_and_decode() {
    let d = Dimension2::new(4, 4);
    assert_eq!(d.encode_point_unchecked(Point2::new(1, 2)), 9);
    assert_eq!(d.encode_point(Point2::new(1, 2)).unwrap(), 9);
    assert!(d.encode_point(Point2::new(3, 0)).is_err());
    assert_eq!(d.decode_point_unchecked(9), Point2::new(1, 2));
    assert_eq!(d.decode_point(9).unwrap(), Point2::new(1, 2));
    assert!(d.decode_point(17).is_err());
    // A square decodes what it encodes.
    let p = Point2::new(2, 1);
    assert_eq!(d.decode_point_unchecked(d.encode_point_unchecked(p)), p);
}

#[test]
fn dimension2_decode_of_a_rectangle_undoes_encode() {
    let d = Dimension2::new(4, 2);
    assert_eq!(d.decode_point_unchecked(5), Point2::new(1, 1));
    let d = Dimension2::new(2, 4);
    assert_eq!(d.decode_point(3).unwrap(), Point2::new(1, 1));
    assert_eq!(d.encode_point_unchecked(Point2::new(1, 1)), 3);
    assert!(d.decode_point(8).is_err());
}

#[test]
fn dimension3_bounds_and_codes() {
    let d = Dimension3::new(3, 4, 2);
    assert_eq!(d.area(), 24);
    assert_eq!(d.x_max(), 2);
    assert_eq!(d.y_max(), 3);
    assert_eq!(d.z_max(), 1);
    assert_eq!(d.center(), Point3::new(1, 2, 1));
    assert!(d.check_point(Point3::new(2, 3, 1)).is_ok());
    assert!(d.check_point(Point3::new(3, 0, 0)).is_err());
    assert!(d.check_point(Point3::new(0, 4, 0)).is_err());
    assert!(d.check_point(Point3::new(0, 0, -1)).is_err());
    assert!(d.check_index(23).is_ok());
    assert!(d.check_index(24).is_err());
    assert_eq!(d.encode_point(Point3::new(1, 2, 1)).unwrap(), 12 + 6 + 1);
    // The row is counted from the top.
    assert_eq!(d.decode_coord(19).unwrap(), Point3::new(1, 1, 1));
    assert_eq!(d.decode_coord_unchecked(0), Point3::new(0, 3, 0));
}

#[test]
fn dimension_arithmetic() {
    assert_eq!(Dimension2::new(1, 2) + Dimension2::new(3, 4), Dimension2::new(4, 6));
    assert_eq!(Dimension2::new(5, 6) - Dimension2::new(3, 4), Dimension2::new(2, 2));
    assert_eq!(Dimension2::new(5, 6) * Dimension2::new(3, 4), Dimension2::new(15, 24));
    assert_eq!(Dimension2::new(15, 24) / Dimension2::new(3, 4), Dimension2::new(5, 6));
    assert_eq!(Dimension2::from((2, 3)), Dimension2::new(2, 3));
    assert_eq!(Dimension2::from(Dimension3::new(2, 3, 4)), Dimension2::new(2, 3));
    assert_eq!(Dimension3::new(1, 2, 3) + Dimension3::new(1, 1, 1), Dimension3::new(2, 3, 4));
}

#[test]
fn legacy_dimensions() {
    let d = Dimensions2::new(4, 3);
    assert_eq!(d.width(), 4);
    assert_eq!(d.height(), 3);
    assert_eq!(d.x_max(), 3);
    assert_eq!(d.y_max(), 2);
    let d3 = Dimensions3::new(4, 3, 2);
    assert_eq!(d3.depth(), 2);
    assert_eq!(d3.z_max(), 1);
}

#[test]
fn dimension_errors() {
    let e = DimensionError::new(ErrorKind::MinLargerThanMax(3, 1));
    assert_eq!(e.kind(), ErrorKind::MinLargerThanMax(3, 1));
    let m = MapError::from(DimensionError::new(ErrorKind::OutOfBounds));
    assert_eq!(*m.kind(), MapErrorKind::DimensionError(DimensionError::new(ErrorKind::OutOfBounds)));
    let m = MapError::new(MapErrorKind::DimensionError(e));
    assert_eq!(*m.kind(), MapErrorKind::DimensionError(e));
}

#[test]
fn point_arithmetic() {
    let p = Point2::new(3, -4);
    assert_eq!(p.x(), 3);
    assert_eq!(p.y(), -4);
    assert_eq!(p + Point2::new(1, 1), Point2::new(4, -3));
    assert_eq!(p - Point2::new(1, 1), Point2::new(2, -5));
    assert_eq!(p * Point2::new(2, 3), Point2::new(6, -12));
    assert_eq!(p / Point2::new(2, 3), Point2::new(1, -1));
    assert_eq!(-p, Point2::new(-3, 4));
    assert_eq!(Point2::from((1, 2)), Point2::new(1, 2));
    let q = Point3::new(1, 2, 3);
    assert_eq!(q.z(), 3);
    assert_eq!(q.xy(), Point2::new(1, 2));
    assert_eq!(Point2::from(q), Point2::new(1, 2));
    assert_eq!(q + Point3::new(1, 1, 1), Point3::new(2, 3, 4));
    assert_eq!(-q, Point3::new(-1, -2, -3));
}

#[test]
fn tile_setter_keeps_what_is_pushed() {
    let mut setter = TileSetter::new();
    assert!(setter.is_empty());
    setter.push(Point3::new(1, 1, 0), Tile::new(Point2::new(1, 1), 1), 0);
    setter.push(Point3::new(2, 2, 0), Tile::new(Point2::new(2, 2), 2), 1);
    assert_eq!(setter.len(), 2);
    assert!(setter.capacity() >= 2);
    setter.reserve_exact(10);
    assert!(setter.capacity() >= 12);
    setter.shrink_to_fit();
    assert_eq!(setter.len(), 2);
    let items: Vec<_> = setter.iter().collect();
    assert_eq!(items[1].2, 1);
    assert_eq!(items[0].1.sprite_index, 1);
    let from_vec = TileSetter::from(vec![(Point3::new(0, 0, 0), Tile::default(), 3)]);
    assert_eq!(from_vec.len(), 1);
    assert!(TileSetter::with_capacity(4).is_empty());
}

#[test]
fn colors_and_tiles() {
    assert!(Color::clear().is_transparent());
    assert!(!Color::white().is_transparent());
    let mut c = Color::white();
    c.set_transparent();
    assert!(c.is_transparent());
    // Negative zero alpha is transparent too.
    assert!(Color::from_bits(0, 0, 0, 0x8000_0000).is_transparent());
    let t = Tile::with_z_order_and_tint(Point2::new(1, 2), 3, 4, Color::clear());
    assert_eq!(t.sprite_order, 4);
    assert_eq!(t.sprite_index, 3);
    assert_eq!(Tile::new(Point2::new(0, 0), 0).tint, Color::white());
}

#[test]
fn chunk_mesh_indices() {
    let mesh = ChunkMesh::new(Dimension2::new(2, 1));
    assert_eq!(mesh.indices(), vec![0, 2, 1, 0, 3, 2, 4, 6, 5, 4, 7, 6]);
    assert_eq!(mesh.dimensions(), Dimension2::new(2, 1));
}

#[test]
fn tile_setter_default_is_empty() {
    assert!(TileSetter::default().is_empty());
}
