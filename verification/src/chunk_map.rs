//! Chunks kept in a vector, found by their points: the map from points to
//! chunks that such a vector stands for.

use vstd::prelude::*;
use crate::chunk::Chunk;
use crate::point::Point2;

verus! {

/// True when no two chunks share a point.
pub open spec fn points_distinct(s: Seq<Chunk>) -> bool {
    forall|i: int, j: int|
        0 <= i < s.len() && 0 <= j < s.len() && i != j ==> s[i].spec_point() != s[j].spec_point()
}

/// True when some chunk has the point.
pub open spec fn has_point(s: Seq<Chunk>, p: Point2) -> bool {
    exists|i: int| 0 <= i < s.len() && s[i].spec_point() == p
}

/// The map from points to chunks that a vector of chunks with distinct
/// points stands for.
pub open spec fn chunks_map(s: Seq<Chunk>) -> Map<Point2, Chunk> {
    Map::new(
        |p: Point2| has_point(s, p),
        |p: Point2| s[choose|i: int| 0 <= i < s.len() && s[i].spec_point() == p],
    )
}

/// A chunk of the vector is what the map holds at its point.
pub proof fn lemma_chunks_map_entry(s: Seq<Chunk>, i: int)
    requires
        points_distinct(s),
        0 <= i < s.len(),
    ensures
        chunks_map(s).contains_key(s[i].spec_point()),
        chunks_map(s)[s[i].spec_point()] == s[i],
{
    let p = s[i].spec_point();
    assert(has_point(s, p));
    let j = choose|j: int| 0 <= j < s.len() && s[j].spec_point() == p;
    assert(j == i);
}

/// Appending a chunk with a new point adds it to the map.
pub proof fn lemma_chunks_map_push(s: Seq<Chunk>, c: Chunk)
    requires
        points_distinct(s),
        !has_point(s, c.spec_point()),
    ensures
        points_distinct(s.push(c)),
        chunks_map(s.push(c)) == chunks_map(s).insert(c.spec_point(), c),
{
    let s1 = s.push(c);
    let p = c.spec_point();
    assert(points_distinct(s1));
    assert forall|q: Point2| #[trigger] chunks_map(s1).contains_key(q) == chunks_map(s).insert(
        p,
        c,
    ).contains_key(q) by {
        if has_point(s, q) {
            let j = choose|j: int| 0 <= j < s.len() && s[j].spec_point() == q;
            assert(s1[j].spec_point() == q);
        }
        if q == p {
            assert(s1[s.len() as int].spec_point() == q);
        }
        if has_point(s1, q) && q != p {
            let j = choose|j: int| 0 <= j < s1.len() && s1[j].spec_point() == q;
            assert(s[j].spec_point() == q);
        }
    }
    assert forall|q: Point2| #[trigger]
        chunks_map(s1).contains_key(q) implies chunks_map(s1)[q] == chunks_map(s).insert(p, c)[q] by {
        let j = choose|j: int| 0 <= j < s1.len() && s1[j].spec_point() == q;
        lemma_chunks_map_entry(s1, j);
        if j < s.len() {
            lemma_chunks_map_entry(s, j);
        }
    }
    assert(chunks_map(s1) =~= chunks_map(s).insert(p, c));
}

/// Replacing a chunk by one with the same point replaces it in the map.
pub proof fn lemma_chunks_map_update(s: Seq<Chunk>, i: int, c: Chunk)
    requires
        points_distinct(s),
        0 <= i < s.len(),
        c.spec_point() == s[i].spec_point(),
    ensures
        points_distinct(s.update(i, c)),
        chunks_map(s.update(i, c)) == chunks_map(s).insert(c.spec_point(), c),
{
    let p = c.spec_point();
    let s1 = s.update(i, c);
    lemma_chunks_map_entry(s, i);
    assert(points_distinct(s1));
    assert forall|q: Point2| #[trigger] chunks_map(s1).contains_key(q) == chunks_map(s).insert(
        p,
        c,
    ).contains_key(q) by {
        if has_point(s, q) {
            let j = choose|j: int| 0 <= j < s.len() && s[j].spec_point() == q;
            assert(s1[j].spec_point() == q);
        }
        if has_point(s1, q) {
            let j = choose|j: int| 0 <= j < s1.len() && s1[j].spec_point() == q;
            assert(s[j].spec_point() == q);
        }
    }
    assert forall|q: Point2| #[trigger]
        chunks_map(s1).contains_key(q) implies chunks_map(s1)[q] == chunks_map(s).insert(p, c)[q] by {
        let j = choose|j: int| 0 <= j < s1.len() && s1[j].spec_point() == q;
        lemma_chunks_map_entry(s1, j);
        if j != i {
            lemma_chunks_map_entry(s, j);
        }
    }
    assert(chunks_map(s1) =~= chunks_map(s).insert(p, c));
}

/// Removing a chunk removes its point from the map.
pub proof fn lemma_chunks_map_remove(s: Seq<Chunk>, i: int)
    requires
        points_distinct(s),
        0 <= i < s.len(),
    ensures
        points_distinct(s.remove(i)),
        chunks_map(s.remove(i)) == chunks_map(s).remove(s[i].spec_point()),
{
    let p = s[i].spec_point();
    let s1 = s.remove(i);
    lemma_chunks_map_entry(s, i);
    assert(forall|j: int| 0 <= j < s1.len() ==> s1[j] == (if j < i {
        s[j]
    } else {
        s[j + 1]
    }));
    assert(points_distinct(s1));
    assert forall|q: Point2| #[trigger] chunks_map(s1).contains_key(q) == chunks_map(s).remove(
        p,
    ).contains_key(q) by {
        if has_point(s, q) && q != p {
            let j = choose|j: int| 0 <= j < s.len() && s[j].spec_point() == q;
            if j < i {
                assert(s1[j].spec_point() == q);
            } else {
                assert(s1[j - 1].spec_point() == q);
            }
        }
        if has_point(s1, q) {
            let j = choose|j: int| 0 <= j < s1.len() && s1[j].spec_point() == q;
            if j < i {
                assert(s[j].spec_point() == q);
            } else {
                assert(s[j + 1].spec_point() == q);
            }
        }
    }
    assert forall|q: Point2| #[trigger]
        chunks_map(s1).contains_key(q) implies chunks_map(s1)[q] == chunks_map(s).remove(p)[q] by {
        let j = choose|j: int| 0 <= j < s1.len() && s1[j].spec_point() == q;
        lemma_chunks_map_entry(s1, j);
        if j < i {
            lemma_chunks_map_entry(s, j);
        } else {
            lemma_chunks_map_entry(s, j + 1);
        }
    }
    assert(chunks_map(s1) =~= chunks_map(s).remove(p));
}

/// Two vectors whose chunks have the same points position by position
/// stand for maps with the same points, where the chunk at each point comes
/// from the same position.
pub proof fn lemma_chunks_same_points(s0: Seq<Chunk>, s1: Seq<Chunk>)
    requires
        points_distinct(s0),
        s0.len() == s1.len(),
        forall|j: int| 0 <= j < s0.len() ==> (#[trigger] s1[j]).spec_point() == s0[j].spec_point(),
    ensures
        points_distinct(s1),
        chunks_map(s1).dom() == chunks_map(s0).dom(),
        forall|p: Point2|
            #[trigger] chunks_map(s0).contains_key(p) ==> exists|j: int|
                0 <= j < s0.len() && chunks_map(s0)[p] == s0[j] && chunks_map(s1)[p] == s1[j],
{
    assert(points_distinct(s1)) by {
        assert forall|i: int, j: int| 0 <= i < s1.len() && 0 <= j < s1.len() && i != j implies s1[i].spec_point() != s1[j].spec_point() by {
            assert(s1[i].spec_point() == s0[i].spec_point());
            assert(s1[j].spec_point() == s0[j].spec_point());
        }
    }
    assert forall|p: Point2| #[trigger] chunks_map(s1).dom().contains(p) == chunks_map(s0).dom().contains(p) by {
        if has_point(s0, p) {
            let j = choose|j: int| 0 <= j < s0.len() && s0[j].spec_point() == p;
            assert(s1[j].spec_point() == p);
        }
        if has_point(s1, p) {
            let j = choose|j: int| 0 <= j < s1.len() && s1[j].spec_point() == p;
            assert(s0[j].spec_point() == p);
        }
    }
    assert(chunks_map(s1).dom() =~= chunks_map(s0).dom());
    assert forall|p: Point2| #[trigger] chunks_map(s0).contains_key(p) implies exists|j: int|
        0 <= j < s0.len() && chunks_map(s0)[p] == s0[j] && chunks_map(s1)[p] == s1[j] by {
        let j = choose|j: int| 0 <= j < s0.len() && s0[j].spec_point() == p;
        lemma_chunks_map_entry(s0, j);
        assert(s1[j].spec_point() == p);
        lemma_chunks_map_entry(s1, j);
    }
}

/// The position of the chunk with a point, if any.
pub fn find_chunk(chunks: &Vec<Chunk>, p: Point2) -> (r: Option<usize>)
    ensures
        r matches Some(i) ==> i < chunks@.len() && chunks@[i as int].spec_point() == p,
        r is None ==> !has_point(chunks@, p),
{
    let mut i: usize = 0;
    while i < chunks.len()
        invariant
            i <= chunks@.len(),
            forall|j: int| 0 <= j < i ==> chunks@[j].spec_point() != p,
        decreases chunks@.len() - i,
    {
        if chunks[i].point() == p {
            return Some(i);
        }
        i = i + 1;
    }
    None
}

} // verus!
