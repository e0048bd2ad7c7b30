//! Tiles, raw tiles and the plain values that stand for colors, entities
//! and asset handles.

use vstd::prelude::*;
use crate::point::Point2;

verus! {

/// A color with four channels, each held as the bit pattern of an IEEE-754
/// single precision number (red, green, blue, alpha).
#[derive(Copy, Clone, PartialEq, Eq, Structural, Hash, Debug)]
pub struct Color {
    /// Bits of the red channel.
    pub r: u32,
    /// Bits of the green channel.
    pub g: u32,
    /// Bits of the blue channel.
    pub b: u32,
    /// Bits of the alpha channel.
    pub a: u32,
}

/// The bits of the number `1.0`.
pub const ONE_BITS: u32 = 0x3f80_0000;

/// The bits of the number `-0.0`.
pub const NEG_ZERO_BITS: u32 = 0x8000_0000;

impl Color {
    /// White, the color that leaves a sprite unchanged.
    pub open spec fn spec_white() -> Color {
        Color { r: ONE_BITS, g: ONE_BITS, b: ONE_BITS, a: ONE_BITS }
    }

    /// Black with an alpha of zero.
    pub open spec fn spec_clear() -> Color {
        Color { r: 0, g: 0, b: 0, a: 0 }
    }

    /// True when the alpha channel is zero (either signed zero).
    pub open spec fn spec_is_transparent(self) -> bool {
        self.a == 0 || self.a == NEG_ZERO_BITS
    }

    /// Constructs a color from the bits of its four channels.
    pub fn from_bits(r: u32, g: u32, b: u32, a: u32) -> (c: Color)
        ensures
            c == (Color { r, g, b, a }),
    {
        Color { r, g, b, a }
    }

    /// White, the color that leaves a sprite unchanged.
    pub fn white() -> (c: Color)
        ensures
            c == Color::spec_white(),
    {
        Color { r: ONE_BITS, g: ONE_BITS, b: ONE_BITS, a: ONE_BITS }
    }

    /// Black with an alpha of zero.
    pub fn clear() -> (c: Color)
        ensures
            c == Color::spec_clear(),
    {
        Color { r: 0, g: 0, b: 0, a: 0 }
    }

    /// True when the alpha channel is zero.
    pub fn is_transparent(&self) -> (t: bool)
        ensures
            t == self.spec_is_transparent(),
    {
        self.a == 0 || self.a == NEG_ZERO_BITS
    }

    /// Sets the alpha channel to zero.
    pub fn set_transparent(&mut self)
        ensures
            *final(self) == (Color { a: 0, ..*old(self) }),
    {
        self.a = 0;
    }
}

/// An entity of the world that the tilemap hands out or is told of, by
/// its identifier.
#[derive(Copy, Clone, PartialEq, Eq, Structural, Hash, Debug)]
pub struct Entity {
    /// The identifier of the entity.
    pub id: u64,
}

/// A handle of a mesh asset, by its identifier.
#[derive(Copy, Clone, PartialEq, Eq, Structural, Hash, Debug)]
pub struct MeshHandle {
    /// The identifier of the mesh.
    pub id: u64,
}

impl MeshHandle {
    /// The handle that a layer holds before a mesh is set.
    pub open spec fn spec_default() -> MeshHandle {
        MeshHandle { id: 0 }
    }

    /// The handle that a layer holds before a mesh is set.
    pub fn default_handle() -> (h: MeshHandle)
        ensures
            h == MeshHandle::spec_default(),
    {
        MeshHandle { id: 0 }
    }
}

/// A handle of a texture atlas asset, by its identifier.
#[derive(Copy, Clone, PartialEq, Eq, Structural, Hash, Debug)]
pub struct AtlasHandle {
    /// The identifier of the texture atlas.
    pub id: u64,
}

impl AtlasHandle {
    /// The handle of no atlas.
    pub open spec fn spec_default() -> AtlasHandle {
        AtlasHandle { id: 0 }
    }
}

/// A raw tile composed of simply an index and a color.
#[derive(Copy, Clone, PartialEq, Eq, Structural, Hash, Debug)]
pub struct RawTile {
    /// The index of the tile in the sprite sheet.
    pub index: usize,
    /// The color, or tint, of the tile.
    pub color: Color,
}

impl RawTile {
    /// A raw tile with sprite index zero and a white tint.
    pub open spec fn spec_default() -> RawTile {
        RawTile { index: 0, color: Color::spec_white() }
    }

    /// The raw tile that fills a new dense layer: index zero, transparent.
    pub open spec fn spec_empty() -> RawTile {
        RawTile { index: 0, color: Color::spec_clear() }
    }
}

impl Default for RawTile {
    fn default() -> (t: RawTile)
        ensures
            t == RawTile::spec_default(),
    {
        RawTile { index: 0, color: Color::white() }
    }
}

/// A tile with a point, the sprite layer it sits on, a sprite index and a
/// tint.
#[derive(Copy, Clone, PartialEq, Eq, Structural, Hash, Debug)]
pub struct Tile {
    /// A point where the tile will exist.
    pub point: Point2,
    /// The sprite layer of the tile. Higher will place the tile above others.
    pub sprite_order: usize,
    /// The sprites index in the texture atlas.
    pub sprite_index: usize,
    /// The desired tint and alpha of the tile. White means no change.
    pub tint: Color,
    /// Whether the sprite is mirrored horizontally.
    pub flip_x: bool,
    /// Whether the sprite is mirrored vertically.
    pub flip_y: bool,
    /// Whether the sprite is mirrored along its diagonal.
    pub flip_d: bool,
    /// Whether the tile is shown.
    pub visible: bool,
}

impl Tile {
    /// The tile that `new` and `with_z_order_and_tint` make.
    pub open spec fn spec_with(point: Point2, sprite_index: usize, sprite_order: usize, tint: Color) -> Tile {
        Tile {
            point,
            sprite_order,
            sprite_index,
            tint,
            flip_x: false,
            flip_y: false,
            flip_d: false,
            visible: false,
        }
    }

    /// The raw tile that the tilemap stores for this tile.
    pub open spec fn spec_raw(self) -> RawTile {
        RawTile { index: self.sprite_index, color: self.tint }
    }

    /// A visible tile on sprite layer zero with a white tint.
    pub fn new(point: Point2, sprite_index: usize) -> (t: Tile)
        ensures
            t == Tile::spec_with(point, sprite_index, 0, Color::spec_white()),
    {
        Tile::with_z_order_and_tint(point, sprite_index, 0, Color::white())
    }

    /// A visible tile with the given sprite layer and tint.
    pub fn with_z_order_and_tint(point: Point2, sprite_index: usize, sprite_order: usize, tint: Color) -> (t: Tile)
        ensures
            t == Tile::spec_with(point, sprite_index, sprite_order, tint),
    {
        Tile {
            point,
            sprite_order,
            sprite_index,
            tint,
            flip_x: false,
            flip_y: false,
            flip_d: false,
            visible: false,
        }
    }
}

impl Default for Tile {
    fn default() -> (t: Tile)
        ensures
            t == (Tile {
                point: Point2 { x: 0, y: 0 },
                sprite_order: 0,
                sprite_index: 0,
                tint: Color::spec_white(),
                flip_x: false,
                flip_y: false,
                flip_d: false,
                visible: false,
            }),
    {
        Tile {
            point: Point2::new(0, 0),
            sprite_order: 0,
            sprite_index: 0,
            tint: Color::white(),
            flip_x: false,
            flip_y: false,
            flip_d: false,
            visible: false,
        }
    }
}

} // verus!
