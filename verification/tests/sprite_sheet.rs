use bevy_tilemap::dimension::{Dimension2, DimensionError, ErrorKind};
use bevy_tilemap::point::Point2;
use bevy_tilemap::sprite_sheet::{
    SpriteSheet, SpriteSheetBuilder, SpriteSheetError, SpriteSheetErrorKind, TextureHandle, DEFAULT_MAX_SIZE,
    DEFAULT_SPRITE_SIZE,
};

fn filled(len: usize, value: u8) -> Vec<u8> {
    vec![value; len]
}

fn count(bytes: &[u8], value: u8) -> usize {
    bytes.iter().filter(|b| **b == value).count()
}

#[test]
fn builder_defaults() {
    assert_eq!(DEFAULT_SPRITE_SIZE, 64);
    assert_eq!(DEFAULT_MAX_SIZE, 2048);
    let textures: Vec<(u64, Vec<u8>)> = Vec::new();
    let (sheet, bytes) = SpriteSheet::builder().finish(&textures, TextureHandle { id: 7 }).unwrap();
    assert!(sheet.is_empty());
    assert_eq!(sheet.len(), 0);
    assert_eq!(bytes.len(), 64 * 64 * 4);
    assert_eq!(count(&bytes, 0), 64 * 64 * 4);
}

#[test]
fn finish_packs_two_sprites() {
    let builder = SpriteSheetBuilder::new()
        .sprite_dimensions(Dimension2::new(2, 2))
        .max_dimensions(Dimension2::new(8, 8))
        .add_sprite(TextureHandle { id: 1 }, Dimension2::new(2, 2))
        .add_sprite(TextureHandle { id: 2 }, Dimension2::new(2, 2));
    let textures = vec![(1u64, filled(16, 11)), (2u64, filled(16, 22))];
    let (sheet, bytes) = builder.finish(&textures, TextureHandle { id: 9 }).unwrap();
    // Two sprites of 2 by 2 do not fit in 2 by 2, so the sheet doubles to 4 by 4.
    assert_eq!(bytes.len(), 4 * 4 * 4);
    assert_eq!(count(&bytes, 11), 16);
    assert_eq!(count(&bytes, 22), 16);
    assert_eq!(count(&bytes, 0), 32);
    assert_eq!(sheet.len(), 2);
    assert!(!sheet.is_empty());
    assert_eq!(sheet.get_sprite_index(&TextureHandle { id: 1 }, Point2::new(0, 0)), Ok(Some(0)));
    assert_eq!(sheet.get_sprite_index(&TextureHandle { id: 2 }, Point2::new(0, 0)), Ok(Some(1)));
    assert_eq!(sheet.get_sprite_index(&TextureHandle { id: 3 }, Point2::new(0, 0)), Ok(None));
    assert_eq!(sheet.get_sprite_index(&TextureHandle { id: 1 }, Point2::new(1, 0)), Ok(None));
    let err = sheet.get_sprite_index(&TextureHandle { id: 1 }, Point2::new(5, 5)).unwrap_err();
    assert_eq!(err.kind(), SpriteSheetErrorKind::DimensionError(DimensionError::new(ErrorKind::OutOfBounds)));
}

#[test]
fn finish_copies_texture_rows() {
    let builder = SpriteSheetBuilder::new()
        .sprite_dimensions(Dimension2::new(2, 1))
        .max_dimensions(Dimension2::new(2, 1))
        .add_sprite(TextureHandle { id: 4 }, Dimension2::new(2, 1));
    let data: Vec<u8> = (1..=8).collect();
    let textures = vec![(4u64, data.clone())];
    let (sheet, bytes) = builder.finish(&textures, TextureHandle { id: 9 }).unwrap();
    assert_eq!(bytes, data);
    assert_eq!(sheet.len(), 1);
}

#[test]
fn finish_not_enough_space() {
    let builder = SpriteSheetBuilder::new()
        .sprite_dimensions(Dimension2::new(2, 2))
        .max_dimensions(Dimension2::new(2, 2))
        .add_sprite(TextureHandle { id: 1 }, Dimension2::new(2, 2))
        .add_sprite(TextureHandle { id: 2 }, Dimension2::new(2, 2));
    let textures = vec![(1u64, filled(16, 1)), (2u64, filled(16, 2))];
    let err = builder.finish(&textures, TextureHandle { id: 9 }).unwrap_err();
    assert_eq!(err.kind(), SpriteSheetErrorKind::NotEnoughSpace);
    assert_eq!(err, SpriteSheetError::new(SpriteSheetErrorKind::NotEnoughSpace));
}

#[test]
fn add_sprites_cuts_cells() {
    let mut builder = SpriteSheetBuilder::new()
        .sprite_dimensions(Dimension2::new(2, 2))
        .max_dimensions(Dimension2::new(8, 8));
    builder.add_sprites(TextureHandle { id: 5 }, Dimension2::new(4, 2), Dimension2::new(2, 2));
    let textures = vec![(5u64, filled(4 * 2 * 4, 3))];
    let (sheet, bytes) = builder.finish(&textures, TextureHandle { id: 9 }).unwrap();
    assert_eq!(sheet.len(), 2);
    assert_eq!(bytes.len(), 4 * 4 * 4);
    assert_eq!(count(&bytes, 3), 4 * 4 * 4);
    assert_eq!(sheet.get_sprite_index(&TextureHandle { id: 5 }, Point2::new(0, 0)), Ok(Some(0)));
}

#[test]
fn with_padding_lays_out_tiles() {
    let sheet = SpriteSheet::with_padding(
        TextureHandle { id: 3 },
        Dimension2::new(2, 2),
        3,
        2,
        Dimension2::new(1, 1),
    );
    assert_eq!(sheet.len(), 6);
    assert!(!sheet.is_empty());
    assert_eq!(sheet.get_sprite_index(&TextureHandle { id: 3 }, Point2::new(0, 0)), Ok(None));
}

#[test]
fn sprite_sheet_errors() {
    let e = SpriteSheetError::from(DimensionError::new(ErrorKind::OutOfBounds));
    assert_eq!(e.kind(), SpriteSheetErrorKind::DimensionError(DimensionError::new(ErrorKind::OutOfBounds)));
    assert_eq!(e.message(), "the point is out of bounds");
    assert_eq!(
        SpriteSheetError::new(SpriteSheetErrorKind::RectanglePackError).message(),
        "not enough bin space"
    );
    assert_eq!(
        SpriteSheetError::new(SpriteSheetErrorKind::NotEnoughSpace).message(),
        "not enough space in the sprite sheet, increase the maximum size"
    );
}

#[test]
fn new_lays_out_tiles_without_padding() {
    let sheet = SpriteSheet::new(TextureHandle { id: 3 }, Dimension2::new(2, 2), 3, 2);
    assert_eq!(sheet.len(), 6);
    assert_eq!(sheet.size(), Dimension2::new(6, 4));
    assert_eq!(sheet.texture(), TextureHandle { id: 3 });
}

#[test]
fn builder_default_is_new() {
    let textures: Vec<(u64, Vec<u8>)> = Vec::new();
    let (sheet, bytes) = SpriteSheetBuilder::default().finish(&textures, TextureHandle { id: 1 }).unwrap();
    assert!(sheet.is_empty());
    assert_eq!(bytes.len(), 64 * 64 * 4);
}
