# bevy_tilemap

A chunk based tilemap for the Bevy game engine, with its logic verified by
Verus.

- `src/` is the library: points and dimensions with their index encodings,
  tiles and colors, dense and sparse sprite layers, chunks, the `Tilemap`
  with its builder, chunk events and automatic spawning, the tile setter, the
  chunk mesh indices, and the sprite sheet builder that packs textures with
  `rectangle-pack`. Every function states its behaviour in `requires` /
  `ensures` and is proved against it; the laws that relate several
  operations (what a read gives back after a write, what a clear leaves,
  which chunks a write leaves untouched, how encodings decode) are public
  proof functions.
- `tests/` runs the library on concrete values.
- `app/` holds the Bevy plugins and systems around the library: meshes,
  entities, transforms, window and camera handling, asset handles, and
  serializable copies of the plain types.
