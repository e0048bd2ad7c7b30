//! Sprite sheets: single textures split into sprites, and the builder that
//! packs loose sprites and sprite sheets into one texture.

use vstd::prelude::*;
use crate::dimension::{Dimension2, DimensionError, ErrorKind};
use crate::point::Point2;
use rectangle_pack::{
    contains_smallest_box, pack_rects, volume_heuristic, GroupedRectsToPlace, RectToInsert, TargetBin,
};

verus! {

/// The rectangle-pack collection of rectangles to place, each under an id.
#[verifier::external_type_specification]
#[verifier::external_body]
#[verifier::reject_recursive_types(RectToPlaceId)]
#[verifier::reject_recursive_types(GroupId)]
pub struct ExGroupedRectsToPlace<RectToPlaceId, GroupId>(GroupedRectsToPlace<RectToPlaceId, GroupId>) where
    RectToPlaceId: core::fmt::Debug + core::hash::Hash + Eq + Ord + PartialOrd,
    GroupId: core::fmt::Debug + core::hash::Hash + Eq + Ord + PartialOrd,
;

/// The collection of rectangles to place that the builder keeps, each under
/// a texture and a sprite index.
pub type RectsToPlace = GroupedRectsToPlace<(u64, usize), ()>;

/// The rectangles that a collection holds: the width and height of the
/// rectangle under each id, the id being a texture and a sprite index.
pub uninterp spec fn rects_of(g: RectsToPlace) -> Map<(u64, usize), (u32, u32)>;

/// What rectangle-pack makes of rectangles packed into a single bin of a
/// width and a height: where each rectangle was placed, as its id and its
/// x, y, width and height, or nothing if they do not fit.
pub uninterp spec fn packing(rects: Map<(u64, usize), (u32, u32)>, width: u32, height: u32) -> Option<
    Seq<((u64, usize), (u32, u32, u32, u32))>,
>;

/// One id comes before another: by texture, then by sprite index.
pub open spec fn id_before(a: (u64, usize), b: (u64, usize)) -> bool {
    a.0 < b.0 || (a.0 == b.0 && a.1 < b.1)
}

/// A packing of rectangles into a bin of a width and a height places every
/// rectangle once, in the order of the ids, with its own width and height,
/// inside the bin.
pub open spec fn packing_places(
    rects: Map<(u64, usize), (u32, u32)>,
    width: u32,
    height: u32,
    placed: Seq<((u64, usize), (u32, u32, u32, u32))>,
) -> bool {
    &&& forall|i: int, j: int| 0 <= i < j < placed.len() ==> id_before(placed[i].0, placed[j].0)
    &&& forall|id: (u64, usize)| rects.contains_key(id) <==> exists|i: int| 0 <= i < placed.len() && placed[i].0 == id
    &&& forall|i: int|
        0 <= i < placed.len() ==> {
            let (id, (x, y, w, h)) = #[trigger] placed[i];
            &&& rects.contains_key(id)
            &&& rects[id] == (w, h)
            &&& x + w <= width
            &&& y + h <= height
        }
}

/// A packing places each rectangle exactly once: it holds as many
/// placements as there are rectangles.
pub proof fn lemma_packing_places_count(
    rects: Map<(u64, usize), (u32, u32)>,
    width: u32,
    height: u32,
    placed: Seq<((u64, usize), (u32, u32, u32, u32))>,
)
    requires
        packing_places(rects, width, height, placed),
    ensures
        rects.dom().finite(),
        placed.len() == rects.dom().len(),
{
    let ids = placed.map_values(|e: ((u64, usize), (u32, u32, u32, u32))| e.0);
    assert(ids.no_duplicates()) by {
        assert forall|i: int, j: int| 0 <= i < ids.len() && 0 <= j < ids.len() && i != j implies ids[i] != ids[j] by {
            if i < j {
                assert(id_before(placed[i].0, placed[j].0));
            } else {
                assert(id_before(placed[j].0, placed[i].0));
            }
        }
    }
    ids.unique_seq_to_set();
    assert(rects.dom() =~= ids.to_set()) by {
        assert forall|id: (u64, usize)| rects.dom().contains(id) <==> ids.to_set().contains(id) by {
            if rects.contains_key(id) {
                let i = choose|i: int| 0 <= i < placed.len() && placed[i].0 == id;
                assert(ids[i] == id);
            }
            if ids.to_set().contains(id) {
                let i = choose|i: int| 0 <= i < ids.len() && ids[i] == id;
                assert(placed[i].0 == id);
            }
        }
    }
    vstd::seq_lib::seq_to_set_is_finite(ids);
}

/// A collection with no rectangles.
///
/// Calls `GroupedRectsToPlace::new`, which makes its maps empty.
#[verifier::external_body]
fn rects_new() -> (made: RectsToPlace)
    ensures
        rects_of(made) =~= Map::empty(),
{
    GroupedRectsToPlace::new()
}

/// Adds a rectangle of a width and height under an id, in no group.
///
/// Calls `GroupedRectsToPlace::push_rect` with no group ids, which inserts
/// the rectangle into its map of rectangles by id (replacing one under the
/// same id) and makes the id a group of its own.
#[verifier::external_body]
fn rects_push(g: &mut RectsToPlace, id: (u64, usize), width: u32, height: u32)
    ensures
        rects_of(*final(g)) == rects_of(*old(g)).insert(id, (width, height)),
{
    g.push_rect(id, None, RectToInsert::new(width, height, 1));
}

/// Packs the rectangles into one bin of a width and a height.
///
/// Calls `pack_rects` with a single target bin of depth one, the volume
/// heuristic and `contains_smallest_box`. Its only error is that there is
/// not enough bin space; on success the crate documents that it tells where
/// every incoming rectangle was placed, and its source keeps the placements
/// in a `BTreeMap` by id, places each rectangle with its own size, and only
/// in sections of the bin. The result is named, as a function of the
/// rectangles and the bin's size.
#[verifier::external_body]
fn rects_pack(g: &RectsToPlace, width: u32, height: u32) -> (r: Option<
    Vec<((u64, usize), (u32, u32, u32, u32))>,
>)
    ensures
        r is Some <==> packing(rects_of(*g), width, height) is Some,
        r matches Some(v) ==> v@ == packing(rects_of(*g), width, height)->0,
        r matches Some(v) ==> packing_places(rects_of(*g), width, height, v@),
{
    let mut bins = std::collections::BTreeMap::new();
    bins.insert(0u8, TargetBin::new(width, height, 1));
    match pack_rects(g, &mut bins, &volume_heuristic, &contains_smallest_box) {
        Ok(placements) => Some(
            placements.packed_locations().iter().map(
                |(id, (_, l))| (*id, (l.x(), l.y(), l.width(), l.height())),
            ).collect(),
        ),
        Err(_) => None,
    }
}


/// The byte of a texture `data` of rows `w` pixels wide, four bytes a pixel,
/// copied into an atlas `aw` pixels wide at pixel `(x, y)`: row `i`, byte
/// `c` of the row lands at this position.
pub open spec fn atlas_pos(aw: int, x: int, y: int, i: int, c: int) -> int {
    ((y + i) * aw + x) * 4 + c
}

/// True when position `k` of the atlas is covered by a rectangle of `w` by
/// `h` pixels at `(x, y)`.
pub open spec fn in_rect(aw: int, x: int, y: int, w: int, h: int, k: int) -> bool {
    exists|i: int, c: int| 0 <= i < h && 0 <= c < 4 * w && k == #[trigger] atlas_pos(aw, x, y, i, c)
}

/// The atlas bytes once the `w` by `h` pixels of `data` have been copied in
/// at `(x, y)`, row by row.
pub open spec fn copied(atlas: Seq<u8>, aw: int, data: Seq<u8>, x: int, y: int, w: int, h: int) -> Seq<u8> {
    Seq::new(
        atlas.len(),
        |k: int|
            if in_rect(aw, x, y, w, h, k) {
                let (i, c) = choose|i: int, c: int|
                    0 <= i < h && 0 <= c < 4 * w && k == #[trigger] atlas_pos(aw, x, y, i, c);
                data[i * 4 * w + c]
            } else {
                atlas[k]
            },
    )
}

/// Two bytes of a rectangle that fits the atlas width land at the same
/// position only if they are the same byte.
pub proof fn lemma_atlas_pos_unique(aw: int, x: int, y: int, w: int, i1: int, c1: int, i2: int, c2: int)
    requires
        0 <= x,
        x + w <= aw,
        0 <= c1 < 4 * w,
        0 <= c2 < 4 * w,
        atlas_pos(aw, x, y, i1, c1) == atlas_pos(aw, x, y, i2, c2),
    ensures
        i1 == i2,
        c1 == c2,
{
    assert((i1 - i2) * aw * 4 == c2 - c1) by (nonlinear_arith)
        requires
            ((y + i1) * aw + x) * 4 + c1 == ((y + i2) * aw + x) * 4 + c2,
    ;
    if i1 != i2 {
        assert(aw * 4 <= (i1 - i2) * aw * 4 || (i1 - i2) * aw * 4 <= -(aw * 4)) by (nonlinear_arith)
            requires
                i1 != i2,
                aw >= 0,
        ;
        assert(false);
    }
}

/// A byte of a rectangle that fits the atlas width lands inside the rows
/// that the rectangle covers.
pub proof fn lemma_atlas_pos_bound(aw: int, x: int, y: int, w: int, h: int, i: int, c: int)
    requires
        0 <= x,
        0 <= y,
        x + w <= aw,
        0 <= i < h,
        0 <= c < 4 * w,
    ensures
        0 <= atlas_pos(aw, x, y, i, c) < (y + h) * aw * 4,
{
    assert(0 <= ((y + i) * aw + x) * 4 + c) by (nonlinear_arith)
        requires
            0 <= x,
            0 <= y,
            0 <= i,
            0 <= c,
            x <= aw,
    ;
    assert(((y + i) * aw + x) * 4 + c < ((y + i) * aw + x + w) * 4) by (nonlinear_arith)
        requires
            c < 4 * w,
    ;
    assert(((y + i) * aw + x + w) * 4 <= (y + i + 1) * aw * 4) by (nonlinear_arith)
        requires
            x + w <= aw,
    ;
    assert((y + i + 1) * aw * 4 <= (y + h) * aw * 4) by (nonlinear_arith)
        requires
            i < h,
            0 <= x,
            x <= aw,
    ;
}

/// Copies a texture of `w` by `h` pixels, four bytes a pixel, into an atlas
/// `aw` pixels wide at pixel `(x, y)`, row by row.
pub fn place_texture(atlas: &mut Vec<u8>, atlas_width: usize, data: &Vec<u8>, x: usize, y: usize, w: usize, h: usize)
    requires
        x + w <= atlas_width,
        y + h <= usize::MAX,
        (y + h) * atlas_width * 4 <= old(atlas)@.len(),
        h * w * 4 <= data@.len(),
    ensures
        final(atlas)@ == copied(old(atlas)@, atlas_width as int, data@, x as int, y as int, w as int, h as int),
{
    let ghost a0 = atlas@;
    let ghost aw = atlas_width as int;
    let _alen = atlas.len();
    let _dlen = data.len();
    let mut i: usize = 0;
    while i < h
        invariant
            i <= h,
            aw == atlas_width as int,
            x + w <= atlas_width,
            y + h <= usize::MAX,
            (y + h) * atlas_width * 4 <= a0.len(),
            h * w * 4 <= data@.len(),
            a0.len() <= usize::MAX,
            data@.len() <= usize::MAX,
            atlas@.len() == a0.len(),
            forall|i2: int, c: int|
                0 <= i2 < i && 0 <= c < 4 * w ==> atlas@[#[trigger] atlas_pos(aw, x as int, y as int, i2, c)]
                    == data@[i2 * 4 * w + c],
            forall|k: int| 0 <= k < a0.len() && !in_rect(aw, x as int, y as int, w as int, i as int, k) ==> #[trigger] atlas@[k] == a0[k],
        decreases h - i,
    {
        proof {
            assert((y + i + 1) * atlas_width * 4 <= (y + h) * atlas_width * 4) by (nonlinear_arith)
                requires
                    i < h,
            ;
            assert(((y + i) * atlas_width + x + w) * 4 <= (y + i + 1) * atlas_width * 4) by (nonlinear_arith)
                requires
                    x + w <= atlas_width,
            ;
            assert((i + 1) * (w * 4) <= h * (w * 4)) by (nonlinear_arith)
                requires
                    i < h,
            ;
            assert(h * (w * 4) == h * w * 4) by (nonlinear_arith);
            assert((i + 1) * (w * 4) == i * (w * 4) + w * 4) by (nonlinear_arith);
            assert(w * 4 <= (i + 1) * (w * 4)) by (nonlinear_arith);
            assert((y + i) * atlas_width <= ((y + i) * atlas_width + x + w) * 4) by (nonlinear_arith);
            assert(((y + i) * atlas_width + x) * 4 <= ((y + i) * atlas_width + x + w) * 4) by (nonlinear_arith);
        }
        let row_bytes = w * 4;
        proof {
            assert((y + i) * atlas_width <= ((y + i) * atlas_width + x) * 4) by (nonlinear_arith);
            assert(((y + i) * atlas_width + x) * 4 <= a0.len());
        }
        let row = y + i;
        let row_start = row * atlas_width;
        let begin = (row_start + x) * 4;
        let texture_begin = i * row_bytes;
        let mut c: usize = 0;
        while c < row_bytes
            invariant
                i < h,
                aw == atlas_width as int,
                c <= row_bytes,
                row_bytes == w * 4,
                x + w <= atlas_width,
                begin == atlas_pos(aw, x as int, y as int, i as int, 0),
                begin + row_bytes <= a0.len(),
                texture_begin == i * row_bytes,
                texture_begin + row_bytes <= data@.len(),
                a0.len() <= usize::MAX,
                data@.len() <= usize::MAX,
                (y + h) * atlas_width * 4 <= a0.len(),
                atlas@.len() == a0.len(),
                forall|i2: int, c2: int|
                    0 <= i2 < i && 0 <= c2 < 4 * w ==> atlas@[#[trigger] atlas_pos(aw, x as int, y as int, i2, c2)]
                        == data@[i2 * 4 * w + c2],
                forall|c2: int| 0 <= c2 < c ==> atlas@[#[trigger] atlas_pos(aw, x as int, y as int, i as int, c2)]
                    == data@[i * 4 * w + c2],
                forall|k: int|
                    0 <= k < a0.len() && !in_rect(aw, x as int, y as int, w as int, i as int, k) && !(begin <= k
                        < begin + c) ==> #[trigger] atlas@[k] == a0[k],
            decreases row_bytes - c,
        {
            let ghost before = atlas@;
            let byte = data[texture_begin + c];
            atlas.set(begin + c, byte);
            proof {
                assert(atlas_pos(aw, x as int, y as int, i as int, c as int) == begin + c);
                assert(i * row_bytes == i * 4 * w) by (nonlinear_arith)
                    requires
                        row_bytes == w * 4,
                ;
                assert forall|i2: int, c2: int|
                    0 <= i2 < i && 0 <= c2 < 4 * w implies atlas@[#[trigger] atlas_pos(aw, x as int, y as int, i2, c2)]
                        == data@[i2 * 4 * w + c2] by {
                    lemma_atlas_pos_bound(aw, x as int, y as int, w as int, h as int, i2, c2);
                    if atlas_pos(aw, x as int, y as int, i2, c2) == begin + c {
                        lemma_atlas_pos_unique(aw, x as int, y as int, w as int, i2, c2, i as int, c as int);
                    }
                }
                assert forall|c2: int| 0 <= c2 < c + 1 implies atlas@[#[trigger] atlas_pos(aw, x as int, y as int, i as int, c2)]
                    == data@[i * 4 * w + c2] by {
                    if c2 < c {
                        assert(atlas_pos(aw, x as int, y as int, i as int, c2) == begin + c2);
                    }
                }
            }
            c = c + 1;
        }
        proof {
            assert forall|k: int| 0 <= k < a0.len() && !in_rect(aw, x as int, y as int, w as int, i as int + 1, k) implies #[trigger] atlas@[k] == a0[k] by {
                assert(!in_rect(aw, x as int, y as int, w as int, i as int, k)) by {
                    if in_rect(aw, x as int, y as int, w as int, i as int, k) {
                        let (i2, c2) = choose|i2: int, c2: int|
                            0 <= i2 < i && 0 <= c2 < 4 * w && k == #[trigger] atlas_pos(aw, x as int, y as int, i2, c2);
                        assert(0 <= i2 < i + 1 && 0 <= c2 < 4 * w && k == atlas_pos(aw, x as int, y as int, i2, c2));
                    }
                }
                if begin <= k < begin + row_bytes {
                    let c2 = k - begin;
                    assert(k == atlas_pos(aw, x as int, y as int, i as int, c2));
                    assert(0 <= i < i + 1 && 0 <= c2 < 4 * w);
                }
            }
        }
        i = i + 1;
    }
    proof {
        assert forall|k: int| 0 <= k < a0.len() implies #[trigger] atlas@[k] == copied(a0, aw, data@, x as int, y as int, w as int, h as int)[k] by {
            if in_rect(aw, x as int, y as int, w as int, h as int, k) {
                let (i2, c2) = choose|i2: int, c2: int|
                    0 <= i2 < h && 0 <= c2 < 4 * w && k == #[trigger] atlas_pos(aw, x as int, y as int, i2, c2);
                assert(atlas@[atlas_pos(aw, x as int, y as int, i2, c2)] == data@[i2 * 4 * w + c2]);
            }
        }
        assert(atlas@ =~= copied(a0, aw, data@, x as int, y as int, w as int, h as int));
    }
}

/// A handle of a texture asset, by its identifier.
#[derive(Copy, Clone, PartialEq, Eq, Structural, Hash, Debug)]
pub struct TextureHandle {
    /// The identifier of the texture.
    pub id: u64,
}

/// A rectangle of a texture in pixels: its corner nearest the origin and
/// its size.
#[derive(Copy, Clone, PartialEq, Eq, Structural, Hash, Debug)]
pub struct SpriteRect {
    /// The left edge.
    pub x: u32,
    /// The top edge.
    pub y: u32,
    /// The width.
    pub width: u32,
    /// The height.
    pub height: u32,
}

/// The kinds of errors of sprite sheets.
#[derive(Copy, Clone, PartialEq, Eq, Structural, Hash, Debug)]
pub enum SpriteSheetErrorKind {
    /// A point lies outside the sprite sheet.
    DimensionError(DimensionError),
    /// The rectangles could not be packed into the bin.
    RectanglePackError,
    /// The sprites do not fit in the largest texture allowed.
    NotEnoughSpace,
}

/// The error type for operations when interacting with a sprite sheet.
#[derive(Copy, Clone, PartialEq, Eq, Structural, Hash, Debug)]
pub struct SpriteSheetError {
    kind: SpriteSheetErrorKind,
}

impl SpriteSheetError {
    /// The kind of the error.
    pub closed spec fn spec_kind(self) -> SpriteSheetErrorKind {
        self.kind
    }

    /// Creates an error of a kind.
    pub fn new(kind: SpriteSheetErrorKind) -> (e: SpriteSheetError)
        ensures
            e.spec_kind() == kind,
    {
        SpriteSheetError { kind }
    }

    /// Returns the kind of the error.
    pub fn kind(&self) -> (k: SpriteSheetErrorKind)
        ensures
            k == self.spec_kind(),
    {
        self.kind
    }

    /// The text of the message that describes an error of a kind.
    pub open spec fn message_text(kind: SpriteSheetErrorKind) -> Seq<char> {
        match kind {
            SpriteSheetErrorKind::DimensionError(_) => "the point is out of bounds"@,
            SpriteSheetErrorKind::RectanglePackError => "not enough bin space"@,
            SpriteSheetErrorKind::NotEnoughSpace => "not enough space in the sprite sheet, increase the maximum size"@,
        }
    }

    /// A message that describes the error.
    pub fn message(&self) -> (s: String)
        ensures
            s@ == SpriteSheetError::message_text(self.spec_kind()),
    {
        match self.kind {
            SpriteSheetErrorKind::DimensionError(_) => String::from_str("the point is out of bounds"),
            SpriteSheetErrorKind::RectanglePackError => String::from_str("not enough bin space"),
            SpriteSheetErrorKind::NotEnoughSpace => String::from_str(
                "not enough space in the sprite sheet, increase the maximum size",
            ),
        }
    }
}

impl core::convert::From<DimensionError> for SpriteSheetError {
    fn from(err: DimensionError) -> (e: SpriteSheetError) {
        SpriteSheetError { kind: SpriteSheetErrorKind::DimensionError(err) }
    }
}

impl vstd::std_specs::convert::FromSpecImpl<DimensionError> for SpriteSheetError {
    open spec fn obeys_from_spec() -> bool {
        true
    }

    closed spec fn from_spec(err: DimensionError) -> SpriteSheetError {
        SpriteSheetError { kind: SpriteSheetErrorKind::DimensionError(err) }
    }
}

/// A sprite sheet result.
pub type SpriteSheetResult<T> = Result<T, SpriteSheetError>;

/// The default size of a sprite in pixels.
pub const DEFAULT_SPRITE_SIZE: u32 = 64;

/// The default largest size of a packed sprite sheet in pixels.
pub const DEFAULT_MAX_SIZE: u32 = 2048;

/// The measure that doubling the size of the sheet brings down while the
/// size is within the largest size.
pub open spec fn fit_measure(w: int, h: int, max: Dimension2) -> int {
    (if w > max.width {
        0
    } else {
        max.width - w + 1
    }) + (if h > max.height {
        0
    } else {
        max.height - h + 1
    })
}

/// The size at which the rectangles first fit in one bin, trying sizes
/// that double from the given one for as long as it is within the largest
/// size.
pub open spec fn first_fit(rects: Map<(u64, usize), (u32, u32)>, w: int, h: int, max: Dimension2) -> Option<
    (u32, u32),
>
    decreases fit_measure(w, h, max),
    when w > 0 && h > 0
{
    if w > max.width || h > max.height {
        None
    } else if packing(rects, w as u32, h as u32) is Some {
        Some((w as u32, h as u32))
    } else {
        first_fit(rects, 2 * w, 2 * h, max)
    }
}

/// Doubling the size on the way to the first fit stays in `u32`.
pub open spec fn doubling_fits(rects: Map<(u64, usize), (u32, u32)>, w: int, h: int, max: Dimension2) -> bool
    decreases fit_measure(w, h, max),
    when w > 0 && h > 0
{
    if w > max.width || h > max.height {
        true
    } else if packing(rects, w as u32, h as u32) is Some {
        true
    } else {
        2 * w <= u32::MAX && 2 * h <= u32::MAX && doubling_fits(rects, 2 * w, 2 * h, max)
    }
}

/// True when some texture has the id.
pub open spec fn has_texture(ts: Seq<(u64, Vec<u8>)>, id: u64) -> bool {
    exists|k: int| 0 <= k < ts.len() && ts[k].0 == id
}

/// The bytes of the first texture with the id.
pub open spec fn texture_data(ts: Seq<(u64, Vec<u8>)>, id: u64) -> Seq<u8> {
    ts[choose|k: int| 0 <= k < ts.len() && ts[k].0 == id && forall|j: int| 0 <= j < k ==> ts[j].0 != id].1@
}

/// The atlas bytes once the textures of the placements have been copied in,
/// in order.
pub open spec fn atlas_after(
    init: Seq<u8>,
    aw: int,
    placed: Seq<((u64, usize), (u32, u32, u32, u32))>,
    ts: Seq<(u64, Vec<u8>)>,
) -> Seq<u8>
    decreases placed.len(),
{
    if placed.len() == 0 {
        init
    } else {
        let p = placed.last();
        copied(
            atlas_after(init, aw, placed.drop_last(), ts),
            aw,
            texture_data(ts, p.0.0),
            p.1.0 as int,
            p.1.1 as int,
            p.1.2 as int,
            p.1.3 as int,
        )
    }
}

/// The sprite of each texture that the sheet can find again: the first
/// placement of the texture, as its texture, its sprite index and its
/// position among the sprites.
pub open spec fn first_handles(placed: Seq<((u64, usize), (u32, u32, u32, u32))>) -> Seq<(u64, usize, usize)>
    decreases placed.len(),
{
    if placed.len() == 0 {
        Seq::empty()
    } else {
        let prev = first_handles(placed.drop_last());
        let id = placed.last().0;
        if exists|k: int| 0 <= k < prev.len() && prev[k].0 == id.0 {
            prev
        } else {
            prev.push((id.0, id.1, (placed.len() - 1) as usize))
        }
    }
}

/// A handle leads to its sprite among the placements: the position it
/// records is a placement with the handle's texture and sprite index, and
/// no earlier placement has the texture.
pub open spec fn leads_to_placement(placed: Seq<((u64, usize), (u32, u32, u32, u32))>, h: (u64, usize, usize)) -> bool {
    &&& (h.2 as int) < placed.len()
    &&& placed[h.2 as int].0 == (h.0, h.1)
    &&& forall|j: int| 0 <= j < h.2 ==> placed[j].0.0 != h.0
}

/// Each handle that a packing gives leads to the sprite placed for it.
pub proof fn lemma_first_handles_lead_to_placements(placed: Seq<((u64, usize), (u32, u32, u32, u32))>)
    requires
        placed.len() <= usize::MAX,
    ensures
        forall|k: int|
            0 <= k < first_handles(placed).len() ==> leads_to_placement(placed, #[trigger] first_handles(placed)[k]),
    decreases placed.len(),
{
    if placed.len() > 0 {
        let prev_p = placed.drop_last();
        lemma_first_handles_lead_to_placements(prev_p);
        lemma_first_handles_cover(prev_p);
        let prev = first_handles(prev_p);
        let hs = first_handles(placed);
        let id = placed.last().0;
        assert forall|k: int| 0 <= k < prev.len() implies leads_to_placement(placed, #[trigger] prev[k]) by {
            let h = prev[k];
            assert(leads_to_placement(prev_p, h));
            assert(placed[h.2 as int] == prev_p[h.2 as int]);
            assert forall|j: int| 0 <= j < h.2 implies placed[j].0.0 != h.0 by {
                assert(placed[j] == prev_p[j]);
            }
        }
        if !(exists|k: int| 0 <= k < prev.len() && prev[k].0 == id.0) {
            let h = (id.0, id.1, (placed.len() - 1) as usize);
            assert(hs == prev.push(h));
            assert forall|j: int| 0 <= j < placed.len() - 1 implies placed[j].0.0 != id.0 by {
                assert(placed[j] == prev_p[j]);
                if placed[j].0.0 == id.0 {
                    let kk = choose|kk: int| 0 <= kk < prev.len() && prev[kk].0 == (#[trigger] prev_p[j]).0.0;
                }
            }
            assert(leads_to_placement(placed, h));
            assert forall|k: int| 0 <= k < hs.len() implies leads_to_placement(placed, #[trigger] hs[k]) by {
                if k < prev.len() {
                    assert(hs[k] == prev[k]);
                }
            }
        }
    }
}

/// Every texture placed has a handle.
pub proof fn lemma_first_handles_cover(placed: Seq<((u64, usize), (u32, u32, u32, u32))>)
    ensures
        forall|j: int|
            0 <= j < placed.len() ==> exists|k: int|
                0 <= k < first_handles(placed).len() && first_handles(placed)[k].0 == (#[trigger] placed[j]).0.0,
    decreases placed.len(),
{
    if placed.len() > 0 {
        let prev_p = placed.drop_last();
        lemma_first_handles_cover(prev_p);
        let prev = first_handles(prev_p);
        let hs = first_handles(placed);
        let id = placed.last().0;
        assert forall|j: int| 0 <= j < placed.len() implies exists|k: int|
            0 <= k < hs.len() && hs[k].0 == (#[trigger] placed[j]).0.0 by {
            if j < prev_p.len() {
                assert(prev_p[j] == placed[j]);
                let kk = choose|kk: int| 0 <= kk < prev.len() && prev[kk].0 == (#[trigger] prev_p[j]).0.0;
                if !(exists|k: int| 0 <= k < prev.len() && prev[k].0 == id.0) {
                    assert(hs == prev.push((id.0, id.1, (placed.len() - 1) as usize)));
                }
                assert(hs[kk] == prev[kk]);
            } else {
                if exists|k: int| 0 <= k < prev.len() && prev[k].0 == id.0 {
                    let k = choose|k: int| 0 <= k < prev.len() && prev[k].0 == id.0;
                    assert(hs[k] == prev[k]);
                } else {
                    assert(hs == prev.push((id.0, id.1, (placed.len() - 1) as usize)));
                    assert(hs[prev.len() as int].0 == id.0);
                }
            }
        }
    }
}

/// The sprite rectangles of the placements.
pub open spec fn placed_rects(placed: Seq<((u64, usize), (u32, u32, u32, u32))>) -> Seq<SpriteRect> {
    Seq::new(
        placed.len(),
        |i: int| SpriteRect { x: placed[i].1.0, y: placed[i].1.1, width: placed[i].1.2, height: placed[i].1.3 },
    )
}

/// The sprite index that a sheet's handles give for a texture and an index
/// of the sheet: that of the first handle of both.
pub open spec fn handle_lookup(handles: Option<Seq<(u64, usize, usize)>>, texture: u64, index: usize) -> Option<usize> {
    match handles {
        Some(hs) => if exists|k: int| 0 <= k < hs.len() && hs[k].0 == texture && hs[k].1 == index {
            Some(
                hs[choose|k: int|
                    0 <= k < hs.len() && hs[k].0 == texture && hs[k].1 == index && forall|j: int|
                        0 <= j < k ==> !(hs[j].0 == texture && hs[j].1 == index)].2,
            )
        } else {
            None
        },
        None => None,
    }
}

/// A builder which is used to create a sprite sheet from loose sprites and
/// other sprite sheets.
pub struct SpriteSheetBuilder {
    rects_to_place: RectsToPlace,
    sprite_size: Dimension2,
    max_size: Dimension2,
}

impl SpriteSheetBuilder {
    /// The rectangles to place, by texture and sprite index.
    pub closed spec fn spec_rects(self) -> Map<(u64, usize), (u32, u32)> {
        rects_of(self.rects_to_place)
    }

    /// The size of a sprite in pixels.
    pub closed spec fn spec_sprite_size(self) -> Dimension2 {
        self.sprite_size
    }

    /// The largest size of the sheet in pixels.
    pub closed spec fn spec_max_size(self) -> Dimension2 {
        self.max_size
    }

    /// Constructs a builder with no sprites, sprites of the default size and
    /// the default largest size.
    pub fn new() -> (b: SpriteSheetBuilder)
        ensures
            b.spec_rects() == Map::<(u64, usize), (u32, u32)>::empty(),
            b.spec_sprite_size() == Dimension2::new_spec(DEFAULT_SPRITE_SIZE, DEFAULT_SPRITE_SIZE),
            b.spec_max_size() == Dimension2::new_spec(DEFAULT_MAX_SIZE, DEFAULT_MAX_SIZE),
    {
        SpriteSheetBuilder {
            rects_to_place: rects_new(),
            sprite_size: Dimension2::new(DEFAULT_SPRITE_SIZE, DEFAULT_SPRITE_SIZE),
            max_size: Dimension2::new(DEFAULT_MAX_SIZE, DEFAULT_MAX_SIZE),
        }
    }

    /// Sets the dimensions of a sprite in pixels.
    pub fn sprite_dimensions(self, sprite_size: Dimension2) -> (b: SpriteSheetBuilder)
        ensures
            b.spec_rects() == self.spec_rects(),
            b.spec_sprite_size() == sprite_size,
            b.spec_max_size() == self.spec_max_size(),
    {
        let mut b = self;
        b.sprite_size = sprite_size;
        b
    }

    /// Sets the largest dimensions of the sprite sheet in pixels.
    pub fn max_dimensions(self, max_size: Dimension2) -> (b: SpriteSheetBuilder)
        ensures
            b.spec_rects() == self.spec_rects(),
            b.spec_sprite_size() == self.spec_sprite_size(),
            b.spec_max_size() == max_size,
    {
        let mut b = self;
        b.max_size = max_size;
        b
    }

    /// Adds a sprite of a texture, the whole texture being its rectangle.
    pub fn add_sprite(self, texture_handle: TextureHandle, texture_dimensions: Dimension2) -> (b: SpriteSheetBuilder)
        ensures
            b.spec_rects() == self.spec_rects().insert(
                (texture_handle.id, 0),
                (texture_dimensions.width, texture_dimensions.height),
            ),
            b.spec_sprite_size() == self.spec_sprite_size(),
            b.spec_max_size() == self.spec_max_size(),
    {
        let mut b = self;
        rects_push(
            &mut b.rects_to_place,
            (texture_handle.id, 0),
            texture_dimensions.width,
            texture_dimensions.height,
        );
        b
    }

    /// The rectangles with `count` more of one size added for a texture,
    /// under sprite indexes from zero.
    pub open spec fn cells_of(
        rects: Map<(u64, usize), (u32, u32)>,
        texture: u64,
        count: int,
        size: (u32, u32),
    ) -> Map<(u64, usize), (u32, u32)> {
        Map::new(
            |id: (u64, usize)| rects.contains_key(id) || (id.0 == texture && id.1 < count),
            |id: (u64, usize)|
                if id.0 == texture && id.1 < count {
                    size
                } else {
                    rects[id]
                },
        )
    }

    /// Adds the sprites of a texture cut in cells of a size, such as another
    /// sprite sheet.
    pub fn add_sprites(&mut self, texture_handle: TextureHandle, texture_dimensions: Dimension2, cell_size: Dimension2)
        requires
            cell_size.width > 0,
            cell_size.height > 0,
            (texture_dimensions.width / cell_size.width) * (texture_dimensions.height / cell_size.height) <= u32::MAX,
        ensures
            final(self).spec_rects() == SpriteSheetBuilder::cells_of(
                old(self).spec_rects(),
                texture_handle.id,
                (texture_dimensions.width / cell_size.width) * (texture_dimensions.height / cell_size.height),
                (
                    ((texture_dimensions.width / cell_size.width) * cell_size.width) as u32,
                    ((texture_dimensions.height / cell_size.height) * cell_size.height) as u32,
                ),
            ),
            final(self).spec_sprite_size() == old(self).spec_sprite_size(),
            final(self).spec_max_size() == old(self).spec_max_size(),
    {
        let width = texture_dimensions.width / cell_size.width;
        let height = texture_dimensions.height / cell_size.height;
        let ghost r0 = self.spec_rects();
        let ghost total = width * height;
        proof {
            assert(width * cell_size.width <= texture_dimensions.width) by (nonlinear_arith)
                requires
                    width == texture_dimensions.width / cell_size.width,
                    cell_size.width > 0,
            ;
            assert(height * cell_size.height <= texture_dimensions.height) by (nonlinear_arith)
                requires
                    height == texture_dimensions.height / cell_size.height,
                    cell_size.height > 0,
            ;
        }
        let rect_width = width * cell_size.width;
        let rect_height = height * cell_size.height;
        let mut row_start: u32 = 0;
        let mut y: u32 = 0;
        while y < height
            invariant
                y <= height,
                row_start == y * width,
                width * height <= u32::MAX,
                total == width * height,
                rect_width == width * cell_size.width,
                rect_height == height * cell_size.height,
                self.spec_sprite_size() == old(self).spec_sprite_size(),
                self.spec_max_size() == old(self).spec_max_size(),
                self.spec_rects() == SpriteSheetBuilder::cells_of(r0, texture_handle.id, row_start as int, (rect_width, rect_height)),
            decreases height - y,
        {
            proof {
                assert((y + 1) * width <= width * height) by (nonlinear_arith)
                    requires
                        y < height,
                ;
                assert((y + 1) * width == y * width + width) by (nonlinear_arith);
            }
            let mut x: u32 = 0;
            while x < width
                invariant
                    x <= width,
                    row_start + width <= u32::MAX,
                    rect_width == width * cell_size.width,
                    rect_height == height * cell_size.height,
                    self.spec_sprite_size() == old(self).spec_sprite_size(),
                    self.spec_max_size() == old(self).spec_max_size(),
                    self.spec_rects() == SpriteSheetBuilder::cells_of(r0, texture_handle.id, row_start + x, (rect_width, rect_height)),
                decreases width - x,
            {
                let index = row_start + x;
                let ghost before = self.spec_rects();
                rects_push(&mut self.rects_to_place, (texture_handle.id, index as usize), rect_width, rect_height);
                proof {
                    assert(self.spec_rects() =~= SpriteSheetBuilder::cells_of(r0, texture_handle.id, row_start + x + 1, (rect_width, rect_height)));
                }
                x = x + 1;
            }
            row_start = row_start + width;
            y = y + 1;
        }
        proof {
            assert(row_start == width * height) by (nonlinear_arith)
                requires
                    row_start == y * width,
                    y == height,
            ;
            assert(self.spec_rects() =~= SpriteSheetBuilder::cells_of(
                r0,
                texture_handle.id,
                (width * height) as int,
                (rect_width, rect_height),
            ));
        }
    }
}

/// A run of `n` zero bytes.
fn zeroed(n: usize) -> (v: Vec<u8>)
    ensures
        v@ == Seq::new(n as nat, |k: int| 0u8),
{
    let mut v: Vec<u8> = Vec::new();
    let mut i: usize = 0;
    while i < n
        invariant
            i <= n,
            v@ == Seq::new(i as nat, |k: int| 0u8),
        decreases n - i,
    {
        v.push(0u8);
        proof {
            assert(v@ =~= Seq::new((i + 1) as nat, |k: int| 0u8));
        }
        i = i + 1;
    }
    v
}

/// The position of the first texture with the id.
fn find_texture(textures: &Vec<(u64, Vec<u8>)>, texture: u64) -> (i: usize)
    requires
        has_texture(textures@, texture),
    ensures
        i < textures@.len(),
        textures@[i as int].0 == texture,
        texture_data(textures@, texture) == textures@[i as int].1@,
{
    let mut ti: usize = 0;
    while ti < textures.len() && textures[ti].0 != texture
        invariant
            ti <= textures@.len(),
            forall|j: int| 0 <= j < ti ==> textures@[j].0 != texture,
        decreases textures@.len() - ti,
    {
        ti = ti + 1;
    }
    proof {
        let k = choose|k: int| 0 <= k < textures@.len() && textures@[k].0 == texture;
        if ti >= textures@.len() {
            assert(textures@[k].0 != texture);
        }
        let c = choose|c: int|
            0 <= c < textures@.len() && textures@[c].0 == texture && forall|j: int| 0 <= j < c ==> textures@[j].0 != texture;
        assert(c == ti as int) by {
            if c < ti as int {
                assert(textures@[c].0 != texture);
            }
            if ti < c {
                assert(textures@[ti as int].0 != texture);
            }
        }
    }
    ti
}

/// True when some handle is of the texture.
fn has_handle(handles: &Vec<(u64, usize, usize)>, texture: u64) -> (b: bool)
    ensures
        b <==> exists|k: int| 0 <= k < handles@.len() && handles@[k].0 == texture,
{
    let mut seen = false;
    let mut j: usize = 0;
    while j < handles.len()
        invariant
            j <= handles@.len(),
            seen <==> exists|k: int| 0 <= k < j && handles@[k].0 == texture,
        decreases handles@.len() - j,
    {
        if handles[j].0 == texture {
            seen = true;
        }
        j = j + 1;
    }
    seen
}

impl SpriteSheetBuilder {
    /// Tries sizes that double from the sprite size, for as long as they are
    /// within the largest size, until the rectangles fit: the size reached
    /// and where the rectangles were placed, if they fit.
    fn search_fit(&self) -> (r: (u32, u32, Option<Vec<((u64, usize), (u32, u32, u32, u32))>>))
        requires
            self.spec_sprite_size().width > 0,
            self.spec_sprite_size().height > 0,
            doubling_fits(
                self.spec_rects(),
                self.spec_sprite_size().width as int,
                self.spec_sprite_size().height as int,
                self.spec_max_size(),
            ),
        ensures
            ({
                let fit = first_fit(
                    self.spec_rects(),
                    self.spec_sprite_size().width as int,
                    self.spec_sprite_size().height as int,
                    self.spec_max_size(),
                );
                &&& fit is None ==> r.2 is None
                &&& fit matches Some(size) ==> r.2 matches Some(v) && size == (r.0, r.1) && v@ == packing(
                    self.spec_rects(),
                    r.0,
                    r.1,
                )->0 && packing_places(self.spec_rects(), r.0, r.1, v@)
            }),
    {
        let max_size = self.max_size;
        let mut current_width = self.sprite_size.width;
        let mut current_height = self.sprite_size.height;
        let ghost fit = first_fit(self.spec_rects(), current_width as int, current_height as int, max_size);
        let mut placements: Option<Vec<((u64, usize), (u32, u32, u32, u32))>> = None;
        loop
            invariant_except_break
                current_width > 0,
                current_height > 0,
                placements is None,
                first_fit(self.spec_rects(), current_width as int, current_height as int, max_size) == fit,
                doubling_fits(self.spec_rects(), current_width as int, current_height as int, max_size),
            ensures
                fit is None ==> placements is None,
                fit matches Some(size) ==> placements matches Some(v) && size == (current_width, current_height) && v@
                    == packing(self.spec_rects(), current_width, current_height)->0 && packing_places(
                    self.spec_rects(),
                    current_width,
                    current_height,
                    v@,
                ),
            decreases fit_measure(current_width as int, current_height as int, max_size),
        {
            if current_width > max_size.width || current_height > max_size.height {
                break;
            }
            placements = rects_pack(&self.rects_to_place, current_width, current_height);
            if placements.is_some() {
                break;
            }
            current_width = current_width * 2;
            current_height = current_height * 2;
        }
        (current_width, current_height, placements)
    }

    /// Lays the placements out: their sprite rectangles, the first handle of
    /// each texture, and the atlas with each texture copied in.
    #[verifier::rlimit(80)]
    #[verifier::spinoff_prover]
    fn lay_out(
        &self,
        placed: &Vec<((u64, usize), (u32, u32, u32, u32))>,
        textures: &Vec<(u64, Vec<u8>)>,
        current_width: u32,
        current_height: u32,
        atlas_data: Vec<u8>,
    ) -> (r: (Vec<SpriteRect>, Vec<(u64, usize, usize)>, Vec<u8>))
        requires
            packing_places(self.spec_rects(), current_width, current_height, placed@),
            forall|id: (u64, usize)|
                #[trigger] self.spec_rects().contains_key(id) ==> has_texture(textures@, id.0)
                    && self.spec_rects()[id].1 * self.spec_rects()[id].0 * 4 <= texture_data(textures@, id.0).len(),
            atlas_data@.len() == current_width * current_height * 4,
        ensures
            r.0@ == placed_rects(placed@),
            r.1@ == first_handles(placed@),
            forall|i: int, j: int|
                0 <= i < r.1@.len() && 0 <= j < r.1@.len() && i != j ==> r.1@[i].0 != r.1@[j].0,
            r.2@ == atlas_after(atlas_data@, current_width as int, placed@, textures@),
    {
        let ghost pl = placed@;
        let ghost init = atlas_data@;
        let mut atlas_data = atlas_data;
        let mut sprites: Vec<SpriteRect> = Vec::new();
        let mut handles: Vec<(u64, usize, usize)> = Vec::new();
        let mut q: usize = 0;
        while q < placed.len()
            invariant
                q <= pl.len(),
                placed@ == pl,
                packing_places(self.spec_rects(), current_width, current_height, pl),
                forall|id: (u64, usize)|
                    #[trigger] self.spec_rects().contains_key(id) ==> has_texture(textures@, id.0)
                        && self.spec_rects()[id].1 * self.spec_rects()[id].0 * 4 <= texture_data(textures@, id.0).len(),
                atlas_data@.len() == current_width * current_height * 4,
                sprites@ == placed_rects(pl.take(q as int)),
                handles@ == first_handles(pl.take(q as int)),
                forall|i: int, j: int|
                    0 <= i < handles@.len() && 0 <= j < handles@.len() && i != j ==> handles@[i].0 != handles@[j].0,
                atlas_data@ == atlas_after(init, current_width as int, pl.take(q as int), textures@),
            decreases pl.len() - q,
        {
            let ((texture, index), (x, y, w, h)) = placed[q];
            let ghost t0 = pl.take(q as int);
            let ghost t1 = pl.take(q as int + 1);
            proof {
                assert(t1.drop_last() =~= t0);
                assert(t1.last() == pl[q as int]);
                assert(self.spec_rects().contains_key((texture, index)));
            }
            let ti = find_texture(textures, texture);
            if !has_handle(&handles, texture) {
                handles.push((texture, index, sprites.len()));
            }
            sprites.push(SpriteRect { x, y, width: w, height: h });
            proof {
                assert(sprites@ =~= placed_rects(t1));
                assert(handles@ =~= first_handles(t1));
                assert(x + w <= current_width && y + h <= current_height);
                assert((y + h) * current_width * 4 <= current_width * current_height * 4) by (nonlinear_arith)
                    requires
                        y + h <= current_height,
                ;
            }
            place_texture(
                &mut atlas_data,
                current_width as usize,
                &textures[ti].1,
                x as usize,
                y as usize,
                w as usize,
                h as usize,
            );
            q = q + 1;
        }
        proof {
            assert(pl.take(pl.len() as int) =~= pl);
        }
        (sprites, handles, atlas_data)
    }
}

impl SpriteSheetBuilder {
    /// Consumes the builder and packs its sprites into one sheet: sizes that
    /// double from the sprite size are tried until the sprites fit or the
    /// size passes the largest size. The sheet's texture is the given
    /// handle, and its bytes (four a pixel, row by row) are returned with
    /// it: each sprite's texture is copied in where the sprite was placed.
    ///
    /// # Errors
    ///
    /// If the sprites fit at no size tried, an error is returned.
    pub fn finish(self, textures: &Vec<(u64, Vec<u8>)>, atlas: TextureHandle) -> (r: SpriteSheetResult<
        (SpriteSheet, Vec<u8>),
    >)
        requires
            self.spec_sprite_size().width > 0,
            self.spec_sprite_size().height > 0,
            doubling_fits(
                self.spec_rects(),
                self.spec_sprite_size().width as int,
                self.spec_sprite_size().height as int,
                self.spec_max_size(),
            ),
            first_fit(
                self.spec_rects(),
                self.spec_sprite_size().width as int,
                self.spec_sprite_size().height as int,
                self.spec_max_size(),
            ) matches Some(size) ==> size.0 * size.1 * 4 <= usize::MAX,
            forall|id: (u64, usize)|
                #[trigger] self.spec_rects().contains_key(id) ==> has_texture(textures@, id.0)
                    && self.spec_rects()[id].1 * self.spec_rects()[id].0 * 4 <= texture_data(textures@, id.0).len(),
        ensures
            ({
                let fit = first_fit(
                    self.spec_rects(),
                    self.spec_sprite_size().width as int,
                    self.spec_sprite_size().height as int,
                    self.spec_max_size(),
                );
                &&& r is Err <==> fit is None
                &&& r matches Err(e) ==> e.spec_kind() == SpriteSheetErrorKind::NotEnoughSpace
                &&& r matches Ok(out) ==> {
                    let (w, h) = fit->0;
                    let placed = packing(self.spec_rects(), w, h)->0;
                    &&& packing_places(self.spec_rects(), w, h, placed)
                    &&& out.0.wf()
                    &&& out.0.spec_texture() == atlas
                    &&& out.0.spec_size() == Dimension2::new_spec(w, h)
                    &&& out.0.spec_dimensions() == Dimension2::new_spec(
                        w / self.spec_sprite_size().width,
                        h / self.spec_sprite_size().height,
                    )
                    &&& out.0.spec_sprites() == placed_rects(placed)
                    &&& out.0.spec_sprites().len() == self.spec_rects().dom().len()
                    &&& out.0.spec_handles() == Some(first_handles(placed))
                    &&& forall|k: int|
                        0 <= k < first_handles(placed).len() ==> {
                            let h = #[trigger] first_handles(placed)[k];
                            &&& (h.2 as int) < out.0.spec_sprites().len()
                            &&& placed[h.2 as int].0 == (h.0, h.1)
                            &&& out.0.spec_sprites()[h.2 as int] == (SpriteRect {
                                x: placed[h.2 as int].1.0,
                                y: placed[h.2 as int].1.1,
                                width: placed[h.2 as int].1.2,
                                height: placed[h.2 as int].1.3,
                            })
                        }
                    &&& out.1@ == atlas_after(Seq::new((w * h * 4) as nat, |k: int| 0u8), w as int, placed, textures@)
                }
            }),
    {
        let sprite_size = self.sprite_size;
        let (current_width, current_height, placements) = self.search_fit();
        let placed = match placements {
            Some(v) => v,
            None => {
                return Err(SpriteSheetError::new(SpriteSheetErrorKind::NotEnoughSpace));
            },
        };
        let atlas_len = (current_width as usize) * (current_height as usize) * 4;
        let atlas_data = zeroed(atlas_len);
        let (sprites, handles, atlas_data) = self.lay_out(&placed, textures, current_width, current_height, atlas_data);
        let sheet = SpriteSheet {
            texture: atlas,
            dimensions: Dimension2::new(current_width / sprite_size.width, current_height / sprite_size.height),
            size: Dimension2::new(current_width, current_height),
            sprites,
            sprite_handles: Some(handles),
        };
        proof {
            lemma_packing_places_count(self.spec_rects(), current_width, current_height, placed@);
            lemma_first_handles_lead_to_placements(placed@);
        }
        Ok((sheet, atlas_data))
    }
}

/// A sprite sheet: a single texture with the rectangles of its sprites.
#[derive(Clone, Debug)]
pub struct SpriteSheet {
    texture: TextureHandle,
    dimensions: Dimension2,
    size: Dimension2,
    sprites: Vec<SpriteRect>,
    sprite_handles: Option<Vec<(u64, usize, usize)>>,
}

impl SpriteSheet {
    /// The texture of the sheet.
    pub closed spec fn spec_texture(self) -> TextureHandle {
        self.texture
    }

    /// The dimensions of the sheet in sprites.
    pub closed spec fn spec_dimensions(self) -> Dimension2 {
        self.dimensions
    }

    /// The size of the sheet in pixels.
    pub closed spec fn spec_size(self) -> Dimension2 {
        self.size
    }

    /// The rectangles of the sprites.
    pub closed spec fn spec_sprites(self) -> Seq<SpriteRect> {
        self.sprites@
    }

    /// The sprites that can be found again by texture, if the sheet was
    /// packed from textures: a texture, a sprite index and a position among
    /// the sprites.
    pub closed spec fn spec_handles(self) -> Option<Seq<(u64, usize, usize)>> {
        match self.sprite_handles {
            Some(v) => Some(v@),
            None => None,
        }
    }

    /// The sprite at column `x` and row `y` of a sheet of tiles with
    /// padding: the padding between columns is the padding's height and
    /// the padding between rows is its width.
    pub open spec fn padded_rect(tile: Dimension2, padding: Dimension2, x: int, y: int) -> SpriteRect {
        SpriteRect {
            x: ((tile.width + padding.height) * x) as u32,
            y: ((tile.height + padding.width) * y) as u32,
            width: tile.width,
            height: tile.height,
        }
    }

    /// The padding between the columns of a sheet once it is laid out.
    pub open spec fn column_padding(columns: u32, rows: u32, padding: Dimension2) -> int {
        if rows > 0 && columns > 1 {
            padding.height as int
        } else {
            0
        }
    }

    /// The padding between the rows of a sheet once it is laid out.
    pub open spec fn row_padding(rows: u32, padding: Dimension2) -> int {
        if rows > 1 {
            padding.width as int
        } else {
            0
        }
    }

    /// Constructs a sprite sheet of a single texture cut in `columns` by
    /// `rows` tiles with padding between them, in row order.
    pub fn with_padding(
        texture: TextureHandle,
        tile_dimensions: Dimension2,
        columns: u32,
        rows: u32,
        padding: Dimension2,
    ) -> (sheet: SpriteSheet)
        requires
            padding.width > 0,
            padding.height > 0,
            columns * rows <= u32::MAX,
            rows > 0 && columns > 1 ==> (tile_dimensions.width + padding.height) * (columns - 1) <= u32::MAX,
            rows > 1 ==> (tile_dimensions.height + padding.width) * (rows - 1) <= u32::MAX,
            (tile_dimensions.width + SpriteSheet::column_padding(columns, rows, padding)) * columns <= u32::MAX,
            (tile_dimensions.height + SpriteSheet::row_padding(rows, padding)) * rows <= u32::MAX,
        ensures
            sheet.wf(),
            sheet.spec_texture() == texture,
            sheet.spec_dimensions() == Dimension2::new_spec(columns, rows),
            sheet.spec_size() == Dimension2::new_spec(
                ((tile_dimensions.width + SpriteSheet::column_padding(columns, rows, padding)) * columns
                    - SpriteSheet::column_padding(columns, rows, padding)) as u32,
                ((tile_dimensions.height + SpriteSheet::row_padding(rows, padding)) * rows - SpriteSheet::row_padding(
                    rows,
                    padding,
                )) as u32,
            ),
            sheet.spec_sprites().len() == columns * rows,
            forall|j: int|
                0 <= j < columns * rows ==> #[trigger] sheet.spec_sprites()[j] == SpriteSheet::padded_rect(
                    tile_dimensions,
                    padding,
                    j % columns as int,
                    j / columns as int,
                ),
            sheet.spec_handles() is None,
    {
        SpriteSheet::lay_out_tiles(texture, tile_dimensions, columns, rows, padding)
    }

    /// Constructs a sprite sheet of a single texture cut in `columns` by
    /// `rows` tiles with no padding between them, in row order.
    pub fn new(texture: TextureHandle, tile_dimensions: Dimension2, columns: u32, rows: u32) -> (sheet: SpriteSheet)
        requires
            columns * rows <= u32::MAX,
            tile_dimensions.width * columns <= u32::MAX,
            tile_dimensions.height * rows <= u32::MAX,
        ensures
            sheet.wf(),
            sheet.spec_texture() == texture,
            sheet.spec_dimensions() == Dimension2::new_spec(columns, rows),
            sheet.spec_size() == Dimension2::new_spec(
                (tile_dimensions.width * columns) as u32,
                (tile_dimensions.height * rows) as u32,
            ),
            sheet.spec_sprites().len() == columns * rows,
            forall|j: int|
                0 <= j < columns * rows ==> #[trigger] sheet.spec_sprites()[j] == (SpriteRect {
                    x: (tile_dimensions.width * (j % columns as int)) as u32,
                    y: (tile_dimensions.height * (j / columns as int)) as u32,
                    width: tile_dimensions.width,
                    height: tile_dimensions.height,
                }),
            sheet.spec_handles() is None,
    {
        let padding = Dimension2::new(0, 0);
        proof {
            if rows > 0 && columns > 1 {
                assert(tile_dimensions.width * (columns - 1) <= tile_dimensions.width * columns) by (nonlinear_arith);
            }
            if rows > 1 {
                assert(tile_dimensions.height * (rows - 1) <= tile_dimensions.height * rows) by (nonlinear_arith);
            }
        }
        SpriteSheet::lay_out_tiles(texture, tile_dimensions, columns, rows, padding)
    }

    /// Lays out a sprite sheet of a single texture cut in `columns` by
    /// `rows` tiles with padding between them, in row order.
    fn lay_out_tiles(
        texture: TextureHandle,
        tile_dimensions: Dimension2,
        columns: u32,
        rows: u32,
        padding: Dimension2,
    ) -> (sheet: SpriteSheet)
        requires
            columns * rows <= u32::MAX,
            rows > 0 && columns > 1 ==> (tile_dimensions.width + padding.height) * (columns - 1) <= u32::MAX,
            rows > 1 ==> (tile_dimensions.height + padding.width) * (rows - 1) <= u32::MAX,
            (tile_dimensions.width + SpriteSheet::column_padding(columns, rows, padding)) * columns <= u32::MAX,
            (tile_dimensions.height + SpriteSheet::row_padding(rows, padding)) * rows <= u32::MAX,
        ensures
            sheet.wf(),
            sheet.spec_texture() == texture,
            sheet.spec_dimensions() == Dimension2::new_spec(columns, rows),
            sheet.spec_size() == Dimension2::new_spec(
                ((tile_dimensions.width + SpriteSheet::column_padding(columns, rows, padding)) * columns
                    - SpriteSheet::column_padding(columns, rows, padding)) as u32,
                ((tile_dimensions.height + SpriteSheet::row_padding(rows, padding)) * rows - SpriteSheet::row_padding(
                    rows,
                    padding,
                )) as u32,
            ),
            sheet.spec_sprites().len() == columns * rows,
            forall|j: int|
                0 <= j < columns * rows ==> #[trigger] sheet.spec_sprites()[j] == SpriteSheet::padded_rect(
                    tile_dimensions,
                    padding,
                    j % columns as int,
                    j / columns as int,
                ),
            sheet.spec_handles() is None,
    {
        let tw = tile_dimensions.width;
        let th = tile_dimensions.height;
        let mut sprites: Vec<SpriteRect> = Vec::with_capacity((columns * rows) as usize);
        let mut x_padding: u32 = 0;
        let mut y_padding: u32 = 0;
        let mut k: u32 = 0;
        let mut y: u32 = 0;
        while y < rows
            invariant
                y <= rows,
                columns * rows <= u32::MAX,
                rows > 0 && columns > 1 ==> (tw + padding.height) * (columns - 1) <= u32::MAX,
                rows > 1 ==> (th + padding.width) * (rows - 1) <= u32::MAX,
                tw == tile_dimensions.width,
                th == tile_dimensions.height,
                k == y * columns,
                sprites@.len() == k,
                x_padding == if y > 0 && columns > 1 { padding.height } else { 0 },
                y_padding == if y > 1 { padding.width } else { 0 },
                forall|j: int|
                    0 <= j < k ==> #[trigger] sprites@[j] == SpriteSheet::padded_rect(
                        tile_dimensions,
                        padding,
                        j % columns as int,
                        j / columns as int,
                    ),
            decreases rows - y,
        {
            if y > 0 {
                y_padding = padding.width;
            }
            proof {
                assert((y + 1) * columns <= rows * columns) by (nonlinear_arith)
                    requires
                        y < rows,
                ;
                assert((y + 1) * columns == y * columns + columns) by (nonlinear_arith);
                if y > 0 {
                    assert((th + padding.width) * y <= (th + padding.width) * (rows - 1)) by (nonlinear_arith)
                        requires
                            y <= rows - 1,
                    ;
                    assert(th + padding.width <= (th + padding.width) * (rows - 1)) by (nonlinear_arith)
                        requires
                            rows > 1,
                    ;
                }
            }
            let row_y = (th + y_padding) * y;
            proof {
                assert(row_y == (th + padding.width) * y) by (nonlinear_arith)
                    requires
                        row_y == (th + y_padding) * y,
                        y == 0 || y_padding == padding.width,
                ;
            }
            let mut x: u32 = 0;
            while x < columns
                invariant
                    y < rows,
                    x <= columns,
                    columns * rows <= u32::MAX,
                    (y + 1) * columns <= rows * columns,
                    rows > 0 && columns > 1 ==> (tw + padding.height) * (columns - 1) <= u32::MAX,
                    tw == tile_dimensions.width,
                    th == tile_dimensions.height,
                    row_y == (th + padding.width) * y,
                    k == y * columns + x,
                    sprites@.len() == k,
                    x_padding == if (y > 0 && columns > 1) || x > 1 { padding.height } else { 0 },
                    (y + 1) * columns == y * columns + columns,
                    forall|j: int|
                        0 <= j < k ==> #[trigger] sprites@[j] == SpriteSheet::padded_rect(
                            tile_dimensions,
                            padding,
                            j % columns as int,
                            j / columns as int,
                        ),
                decreases columns - x,
            {
                if x > 0 {
                    x_padding = padding.height;
                }
                proof {
                    if x > 0 {
                        assert((tw + padding.height) * x <= (tw + padding.height) * (columns - 1)) by (nonlinear_arith)
                            requires
                                x <= columns - 1,
                        ;
                        assert(tw + padding.height <= (tw + padding.height) * x) by (nonlinear_arith)
                            requires
                                x >= 1,
                        ;
                    } else if columns > 1 {
                        assert(tw + padding.height <= (tw + padding.height) * (columns - 1)) by (nonlinear_arith)
                            requires
                                columns > 1,
                        ;
                    }
                }
                let col_x = (tw + x_padding) * x;
                proof {
                    assert(col_x == (tw + padding.height) * x) by (nonlinear_arith)
                        requires
                            col_x == (tw + x_padding) * x,
                            x == 0 || x_padding == padding.height,
                    ;
                    vstd::arithmetic::div_mod::lemma_fundamental_div_mod_converse(
                        k as int,
                        columns as int,
                        y as int,
                        x as int,
                    );
                }
                sprites.push(SpriteRect { x: col_x, y: row_y, width: tw, height: th });
                k = k + 1;
                x = x + 1;
            }
            y = y + 1;
        }
        proof {
            assert(k == columns * rows) by (nonlinear_arith)
                requires
                    k == y * columns,
                    y == rows,
            ;
            assert(x_padding == SpriteSheet::column_padding(columns, rows, padding));
            assert(y_padding == SpriteSheet::row_padding(rows, padding));
            assert((tw + x_padding) * columns >= x_padding) by (nonlinear_arith)
                requires
                    columns > 0 || x_padding == 0,
            ;
            assert(tw + x_padding <= u32::MAX) by (nonlinear_arith)
                requires
                    (tw + x_padding) * columns <= u32::MAX,
                    columns > 0 || x_padding == 0,
                    tw <= u32::MAX,
            ;
            assert(th + y_padding <= u32::MAX) by (nonlinear_arith)
                requires
                    (th + y_padding) * rows <= u32::MAX,
                    rows > 0 || y_padding == 0,
                    th <= u32::MAX,
            ;
            assert((th + y_padding) * rows >= y_padding) by (nonlinear_arith)
                requires
                    rows > 0 || y_padding == 0,
            ;
        }
        let width = ((tw + x_padding) * columns) - x_padding;
        let height = ((th + y_padding) * rows) - y_padding;
        SpriteSheet {
            texture,
            dimensions: Dimension2::new(columns, rows),
            size: Dimension2::new(width, height),
            sprites,
            sprite_handles: None,
        }
    }

    /// No two of the sprites that can be found again share a texture.
    pub open spec fn wf(self) -> bool {
        self.spec_handles() matches Some(hs) ==> {
            &&& forall|i: int, j: int|
                #![trigger hs[i], hs[j]]
                0 <= i < hs.len() && 0 <= j < hs.len() && i != j ==> hs[i].0 != hs[j].0
            &&& forall|i: int| 0 <= i < hs.len() ==> ((#[trigger] hs[i]).2 as int) < self.spec_sprites().len()
        }
    }

    /// Returns a builder to pack loose sprites and sprite sheets into one
    /// sheet.
    pub fn builder() -> (b: SpriteSheetBuilder)
        ensures
            b.spec_rects() == Map::<(u64, usize), (u32, u32)>::empty(),
            b.spec_sprite_size() == Dimension2::new_spec(DEFAULT_SPRITE_SIZE, DEFAULT_SPRITE_SIZE),
            b.spec_max_size() == Dimension2::new_spec(DEFAULT_MAX_SIZE, DEFAULT_MAX_SIZE),
    {
        SpriteSheetBuilder::new()
    }

    /// The texture of the sheet.
    pub fn texture(&self) -> (t: TextureHandle)
        ensures
            t == self.spec_texture(),
    {
        self.texture
    }

    /// The size of the sheet in pixels.
    pub fn size(&self) -> (d: Dimension2)
        ensures
            d == self.spec_size(),
    {
        self.size
    }

    /// The number of sprites.
    pub fn len(&self) -> (n: usize)
        ensures
            n == self.spec_sprites().len(),
    {
        self.sprites.len()
    }

    /// Returns `true` if the sheet has no sprites.
    pub fn is_empty(&self) -> (b: bool)
        ensures
            b <==> self.spec_sprites().len() == 0,
    {
        self.sprites.len() == 0
    }

    /// The sprite index of a texture's sprite at a point of the sheet, if
    /// the sheet can find it.
    ///
    /// # Errors
    ///
    /// If the point lies outside the dimensions of the sheet, an error is
    /// returned.
    pub fn get_sprite_index(&self, texture: &TextureHandle, point: Point2) -> (r: SpriteSheetResult<Option<usize>>)
        requires
            self.wf(),
            self.spec_dimensions().check_point_defined(point),
            !self.spec_dimensions().spec_out_of_bounds(point) ==> self.spec_dimensions().encode_defined(point),
        ensures
            r is Err <==> self.spec_dimensions().spec_out_of_bounds(point),
            r matches Err(e) ==> e.spec_kind() matches SpriteSheetErrorKind::DimensionError(d) && d.spec_kind()
                == ErrorKind::OutOfBounds,
            r matches Ok(Some(pos)) ==> (pos as int) < self.spec_sprites().len(),
            r matches Ok(o) ==> o == handle_lookup(
                self.spec_handles(),
                texture.id,
                crate::arith::wrap_usize(self.spec_dimensions().spec_encode(point)) as usize,
            ),
    {
        let index = match self.dimensions.encode_point(point) {
            Ok(i) => i,
            Err(e) => {
                return Err(SpriteSheetError::new(SpriteSheetErrorKind::DimensionError(e)));
            },
        };
        match &self.sprite_handles {
            Some(handles) => {
                let mut k: usize = 0;
                while k < handles.len()
                    invariant
                        k <= handles@.len(),
                        self.wf(),
                        self.spec_handles() == Some(handles@),
                        !self.spec_dimensions().spec_out_of_bounds(point),
                        index == crate::arith::wrap_usize(self.spec_dimensions().spec_encode(point)) as usize,
                        forall|j: int| 0 <= j < k ==> !(handles@[j].0 == texture.id && handles@[j].1 == index),
                    decreases handles@.len() - k,
                {
                    if handles[k].0 == texture.id && handles[k].1 == index {
                        let ghost hs = handles@;
                        proof {
                            assert(self.spec_handles() == Some(hs));
                            assert(hs[k as int].0 == texture.id && hs[k as int].1 == index);
                            let c = choose|j: int|
                                0 <= j < hs.len() && hs[j].0 == texture.id && hs[j].1 == index && forall|m: int|
                                    0 <= m < j ==> !(hs[m].0 == texture.id && hs[m].1 == index);
                            assert(0 <= k < hs.len() && hs[k as int].0 == texture.id && hs[k as int].1 == index && forall|m: int|
                                0 <= m < k ==> !(hs[m].0 == texture.id && hs[m].1 == index));
                            if c < k as int {
                                assert(!(hs[c].0 == texture.id && hs[c].1 == index));
                            }
                            if k < c {
                                assert(!(hs[k as int].0 == texture.id && hs[k as int].1 == index));
                            }
                        }
                        return Ok(Some(handles[k].2));
                    }
                    k = k + 1;
                }
                proof {
                    assert(!exists|j: int| 0 <= j < handles@.len() && handles@[j].0 == texture.id && handles@[j].1 == index);
                }
                Ok(None)
            },
            None => Ok(None),
        }
    }
}

impl Default for SpriteSheetBuilder {
    fn default() -> (b: SpriteSheetBuilder)
        ensures
            b.spec_rects() == Map::<(u64, usize), (u32, u32)>::empty(),
            b.spec_sprite_size() == Dimension2::new_spec(DEFAULT_SPRITE_SIZE, DEFAULT_SPRITE_SIZE),
            b.spec_max_size() == Dimension2::new_spec(DEFAULT_MAX_SIZE, DEFAULT_MAX_SIZE),
    {
        SpriteSheetBuilder::new()
    }
}

} // verus!
