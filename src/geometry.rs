use vstd::prelude::*;

use crate::types::{Board, Coord};

verus! {

/// Whether `c` lies on a board of the given width and height.
pub open spec fn in_bounds_spec(width: u32, height: u32, c: Coord) -> bool {
    c.x < width && c.y < height
}

/// Absolute difference of two integers.
pub open spec fn abs_diff(a: int, b: int) -> nat {
    if a >= b {
        (a - b) as nat
    } else {
        (b - a) as nat
    }
}

/// Manhattan distance between two cells.
pub open spec fn dist(a: Coord, b: Coord) -> nat {
    abs_diff(a.x as int, b.x as int) + abs_diff(a.y as int, b.y as int)
}

/// The first element of `s` at the least distance from `t`.
pub open spec fn nearest(s: Seq<Coord>, t: Coord) -> Coord
    decreases s.len(),
{
    if s.len() <= 1 {
        s[0]
    } else {
        let best = nearest(s.drop_last(), t);
        if dist(s.last(), t) < dist(best, t) {
            s.last()
        } else {
            best
        }
    }
}

/// The first element of `s` at the greatest distance from `t`.
pub open spec fn farthest(s: Seq<Coord>, t: Coord) -> Coord
    decreases s.len(),
{
    if s.len() <= 1 {
        s[0]
    } else {
        let best = farthest(s.drop_last(), t);
        if dist(s.last(), t) > dist(best, t) {
            s.last()
        } else {
            best
        }
    }
}

/// `s[i]` is the first element of `s` with the least distance to `t`.
pub open spec fn is_first_nearest(s: Seq<Coord>, t: Coord, i: int) -> bool {
    &&& 0 <= i < s.len()
    &&& forall|j: int| 0 <= j < s.len() ==> dist(s[i], t) <= #[trigger] dist(s[j], t)
    &&& forall|j: int| 0 <= j < i ==> dist(s[i], t) < #[trigger] dist(s[j], t)
}

/// `s[i]` is the first element of `s` with the greatest distance to `t`.
pub open spec fn is_first_farthest(s: Seq<Coord>, t: Coord, i: int) -> bool {
    &&& 0 <= i < s.len()
    &&& forall|j: int| 0 <= j < s.len() ==> dist(s[i], t) >= #[trigger] dist(s[j], t)
    &&& forall|j: int| 0 <= j < i ==> dist(s[i], t) > #[trigger] dist(s[j], t)
}

/// `nearest` picks the first element at the least distance.
pub proof fn lemma_nearest_is_first_min(s: Seq<Coord>, t: Coord)
    requires
        s.len() > 0,
    ensures
        exists|i: int| is_first_nearest(s, t, i) && s[i] == nearest(s, t),
    decreases s.len(),
{
    if s.len() == 1 {
        assert(is_first_nearest(s, t, 0));
    } else {
        let p = s.drop_last();
        lemma_nearest_is_first_min(p, t);
        let k = choose|k: int| is_first_nearest(p, t, k) && p[k] == nearest(p, t);
        assert forall|j: int| 0 <= j < p.len() implies #[trigger] s[j] == p[j] by {}
        assert forall|j: int| 0 <= j < p.len() implies dist(s[j], t) == #[trigger] dist(p[j], t) by {}
        if dist(s.last(), t) < dist(nearest(p, t), t) {
            assert(is_first_nearest(s, t, s.len() - 1));
        } else {
            assert(is_first_nearest(s, t, k));
        }
    }
}

/// `farthest` picks the first element at the greatest distance.
pub proof fn lemma_farthest_is_first_max(s: Seq<Coord>, t: Coord)
    requires
        s.len() > 0,
    ensures
        exists|i: int| is_first_farthest(s, t, i) && s[i] == farthest(s, t),
    decreases s.len(),
{
    if s.len() == 1 {
        assert(is_first_farthest(s, t, 0));
    } else {
        let p = s.drop_last();
        lemma_farthest_is_first_max(p, t);
        let k = choose|k: int| is_first_farthest(p, t, k) && p[k] == farthest(p, t);
        assert forall|j: int| 0 <= j < p.len() implies #[trigger] s[j] == p[j] by {}
        assert forall|j: int| 0 <= j < p.len() implies dist(s[j], t) == #[trigger] dist(p[j], t) by {}
        if dist(s.last(), t) > dist(farthest(p, t), t) {
            assert(is_first_farthest(s, t, s.len() - 1));
        } else {
            assert(is_first_farthest(s, t, k));
        }
    }
}

/// Whether `coord` lies on the board.
pub fn in_bounds(board: &Board, coord: &Coord) -> (r: bool)
    ensures
        r == (coord.x < board.width && coord.y < board.height),
        r == in_bounds_spec(board.width, board.height, *coord),
{
    coord.x < board.width && coord.y < board.height
}

/// Manhattan distance between `a` and `b`; it is wide enough for any two cells.
pub fn manhattan_distance(a: &Coord, b: &Coord) -> (r: u64)
    ensures
        r == dist(*a, *b),
{
    let dx: u32 = if a.x >= b.x { a.x - b.x } else { b.x - a.x };
    let dy: u32 = if a.y >= b.y { a.y - b.y } else { b.y - a.y };
    dx as u64 + dy as u64
}

/// The first of `coords` that is nearest to `target`.
pub fn select_toward<'a>(coords: &'a [Coord], target: &Coord) -> (r: &'a Coord)
    requires
        coords@.len() > 0,
    ensures
        *r == nearest(coords@, *target),
        exists|i: int| is_first_nearest(coords@, *target, i) && coords@[i] == *r,
{
    let mut best: usize = 0;
    let mut best_dist: u64 = manhattan_distance(&coords[0], target);
    let mut i: usize = 1;
    while i < coords.len()
        invariant
            1 <= i <= coords@.len(),
            best < i,
            best_dist == dist(coords@[best as int], *target),
            coords@[best as int] == nearest(coords@.subrange(0, i as int), *target),
        decreases coords@.len() - i,
    {
        let d = manhattan_distance(&coords[i], target);
        let ghost pre = coords@.subrange(0, i as int);
        assert(coords@.subrange(0, i + 1).drop_last() == pre);
        if d < best_dist {
            best = i;
            best_dist = d;
        }
        i = i + 1;
    }
    assert(coords@.subrange(0, coords@.len() as int) == coords@);
    proof {
        lemma_nearest_is_first_min(coords@, *target);
    }
    &coords[best]
}

/// The first of `coords` that is farthest from `target`.
pub fn select_away<'a>(coords: &'a [Coord], target: &Coord) -> (r: &'a Coord)
    requires
        coords@.len() > 0,
    ensures
        *r == farthest(coords@, *target),
        exists|i: int| is_first_farthest(coords@, *target, i) && coords@[i] == *r,
{
    let mut best: usize = 0;
    let mut best_dist: u64 = manhattan_distance(&coords[0], target);
    let mut i: usize = 1;
    while i < coords.len()
        invariant
            1 <= i <= coords@.len(),
            best < i,
            best_dist == dist(coords@[best as int], *target),
            coords@[best as int] == farthest(coords@.subrange(0, i as int), *target),
        decreases coords@.len() - i,
    {
        let d = manhattan_distance(&coords[i], target);
        let ghost pre = coords@.subrange(0, i as int);
        assert(coords@.subrange(0, i + 1).drop_last() == pre);
        if d > best_dist {
            best = i;
            best_dist = d;
        }
        i = i + 1;
    }
    assert(coords@.subrange(0, coords@.len() as int) == coords@);
    proof {
        lemma_farthest_is_first_max(coords@, *target);
    }
    &coords[best]
}

/// Distance is symmetric, and zero from a cell to itself.
pub proof fn lemma_distance_symmetric(a: Coord, b: Coord)
    ensures
        dist(a, b) == dist(b, a),
        dist(a, a) == 0,
{
}

} // verus!
