//! A list of tiles to set, each with a point and the sprite layer it goes
//! on.

use vstd::prelude::*;
use vstd::std_specs::iter::IteratorSpec;
use crate::point::Point3;
use crate::tile::Tile;

verus! {


/// The capacity of a vector of entries.
///
/// Calls `Vec::capacity`, which std documents as the number of elements the
/// vector can hold without reallocating: it is at least the length. What
/// more the allocator gave is not stated.
#[verifier::external_body]
fn vec_capacity(v: &Vec<(Point3, Tile, usize)>) -> (c: usize)
    ensures
        c >= v@.len(),
{
    v.capacity()
}

/// Shrinks the capacity of a vector of entries as much as possible.
///
/// Calls `Vec::shrink_to_fit`, which std documents as keeping the elements
/// and lowering only the capacity.
#[verifier::external_body]
fn vec_shrink_to_fit(v: &mut Vec<(Point3, Tile, usize)>)
    ensures
        final(v)@ == old(v)@,
{
    v.shrink_to_fit();
}

/// Reserves room for exactly `additional` more entries.
///
/// Calls `Vec::reserve_exact`, which std documents as keeping the elements
/// and panicking when the new capacity exceeds `isize::MAX` bytes, which
/// the `requires` rules out.
#[verifier::external_body]
fn vec_reserve_exact(v: &mut Vec<(Point3, Tile, usize)>, additional: usize)
    requires
        (old(v)@.len() + additional) * vstd::layout::size_of::<(Point3, Tile, usize)>() <= isize::MAX,
    ensures
        final(v)@ == old(v)@,
{
    v.reserve_exact(additional);
}

/// A list of tiles to set, each with its point and the sprite layer it
/// goes on, in the order they were pushed.
#[derive(Clone, Debug)]
pub struct TileSetter(Vec<(Point3, Tile, usize)>);

impl TileSetter {
    /// The entries, in the order they were pushed.
    pub closed spec fn spec_entries(self) -> Seq<(Point3, Tile, usize)> {
        self.0@
    }

    /// Creates an empty tile setter.
    pub fn new() -> (s: TileSetter)
        ensures
            s.spec_entries() == Seq::<(Point3, Tile, usize)>::empty(),
    {
        TileSetter(Vec::new())
    }

    /// Creates an empty tile setter with room for `capacity` entries.
    pub fn with_capacity(capacity: usize) -> (s: TileSetter)
        requires
            capacity * vstd::layout::size_of::<(Point3, Tile, usize)>() <= isize::MAX,
        ensures
            s.spec_entries() == Seq::<(Point3, Tile, usize)>::empty(),
    {
        TileSetter(Vec::with_capacity(capacity))
    }

    /// Adds a tile at a point on a sprite layer.
    pub fn push(&mut self, coord: Point3, tile: Tile, z_layer: usize)
        ensures
            final(self).spec_entries() == old(self).spec_entries().push((coord, tile, z_layer)),
    {
        self.0.push((coord, tile, z_layer));
    }

    /// Shrinks the capacity as much as possible; the entries stay.
    pub fn shrink_to_fit(&mut self)
        ensures
            final(self).spec_entries() == old(self).spec_entries(),
    {
        vec_shrink_to_fit(&mut self.0);
    }

    /// Reserves room for exactly `additional` more entries; the entries
    /// stay.
    pub fn reserve_exact(&mut self, additional: usize)
        requires
            (old(self).spec_entries().len() + additional) * vstd::layout::size_of::<(Point3, Tile, usize)>()
                <= isize::MAX,
        ensures
            final(self).spec_entries() == old(self).spec_entries(),
    {
        vec_reserve_exact(&mut self.0, additional);
    }

    /// The number of entries.
    pub fn len(&self) -> (n: usize)
        ensures
            n == self.spec_entries().len(),
    {
        self.0.len()
    }

    /// The number of entries the setter can hold without reallocating.
    pub fn capacity(&self) -> (c: usize)
        ensures
            c >= self.spec_entries().len(),
    {
        vec_capacity(&self.0)
    }

    /// Returns `true` if there are no entries.
    pub fn is_empty(&self) -> (b: bool)
        ensures
            b <==> self.spec_entries().len() == 0,
    {
        self.0.len() == 0
    }

    /// An iterator over the entries, in the order they were pushed.
    pub fn iter(&self) -> (it: std::slice::Iter<'_, (Point3, Tile, usize)>)
        ensures
            it.remaining() == self.spec_entries().as_ref(),
    {
        let sl = self.0.as_slice();
        let it = sl.iter();
        proof {
            vstd::std_specs::slice::axiom_spec_slice_iter(sl);
        }
        it
    }
}

impl core::convert::From<Vec<(Point3, Tile, usize)>> for TileSetter {
    fn from(vec: Vec<(Point3, Tile, usize)>) -> (s: TileSetter) {
        TileSetter(vec)
    }
}

impl vstd::std_specs::convert::FromSpecImpl<Vec<(Point3, Tile, usize)>> for TileSetter {
    open spec fn obeys_from_spec() -> bool {
        true
    }

    closed spec fn from_spec(vec: Vec<(Point3, Tile, usize)>) -> TileSetter {
        TileSetter(vec)
    }
}

impl Default for TileSetter {
    fn default() -> (s: TileSetter)
        ensures
            s.spec_entries() == Seq::<(Point3, Tile, usize)>::empty(),
    {
        TileSetter::new()
    }
}

} // verus!
