//! A chunk based tilemap: points, dimensions, chunks of sprite layers,
//! and the tilemap that keeps them, with the sprite sheet builder beside it.

pub mod arith;
pub mod point;
pub mod dimension;
pub mod dimensions;
pub mod tile;
pub mod index_map;
pub mod layer;
pub mod chunk;
pub mod render;
pub mod coord;
pub mod chunk_map;
pub mod tilemap;
pub mod tile_setter;
pub mod sprite_sheet;
pub mod map;
pub mod mesh;
