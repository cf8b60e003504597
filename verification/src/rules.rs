//! The mathematical model of the update rule on the unbounded plane: the live
//! population is a set of integer coordinates, and one generation is a pure
//! function of that set.
use vstd::prelude::*;

verus! {

/// 1 if the coordinate is live in `s`, else 0.
pub open spec fn occ(s: Set<(int, int)>, x: int, y: int) -> int {
    if s.contains((x, y)) {
        1int
    } else {
        0int
    }
}

/// Number of live cells among the 8 Chebyshev-adjacent coordinates of (x, y).
pub open spec fn neighbor_count(s: Set<(int, int)>, x: int, y: int) -> int {
    occ(s, x - 1, y - 1) + occ(s, x, y - 1) + occ(s, x + 1, y - 1) + occ(s, x - 1, y) + occ(
        s,
        x + 1,
        y,
    ) + occ(s, x - 1, y + 1) + occ(s, x, y + 1) + occ(s, x + 1, y + 1)
}

/// The rule: a live cell survives on 2 or 3 neighbors, a dead coordinate is
/// born on exactly 3, everything else is dead in the next generation.
pub open spec fn next_live(s: Set<(int, int)>, x: int, y: int) -> bool {
    if s.contains((x, y)) {
        neighbor_count(s, x, y) == 2 || neighbor_count(s, x, y) == 3
    } else {
        neighbor_count(s, x, y) == 3
    }
}

/// The whole next generation, as a set.
pub open spec fn next_coords(s: Set<(int, int)>) -> Set<(int, int)> {
    Set::new(|p: (int, int)| next_live(s, p.0, p.1))
}

/// Chebyshev distance at most 1: (x, y) is (cx, cy) itself or one of its 8
/// neighbors.
pub open spec fn near(cx: int, cy: int, x: int, y: int) -> bool {
    -1 <= cx - x <= 1 && -1 <= cy - y <= 1
}

/// (x, y) is one of the 8 neighbors of (cx, cy), the coordinate itself
/// excluded.
pub open spec fn adjacent(cx: int, cy: int, x: int, y: int) -> bool {
    near(cx, cy, x, y) && !(cx == x && cy == y)
}

/// A coordinate with a positive neighbor count has a live neighbor.
pub proof fn lemma_count_positive_has_neighbor(s: Set<(int, int)>, x: int, y: int)
    requires
        neighbor_count(s, x, y) > 0,
    ensures
        exists|q: (int, int)| s.contains(q) && adjacent(q.0, q.1, x, y),
{
    if s.contains((x - 1, y - 1)) {
        assert(s.contains((x - 1, y - 1)) && adjacent(x - 1, y - 1, x, y));
    } else if s.contains((x, y - 1)) {
        assert(s.contains((x, y - 1)) && adjacent(x, y - 1, x, y));
    } else if s.contains((x + 1, y - 1)) {
        assert(s.contains((x + 1, y - 1)) && adjacent(x + 1, y - 1, x, y));
    } else if s.contains((x - 1, y)) {
        assert(s.contains((x - 1, y)) && adjacent(x - 1, y, x, y));
    } else if s.contains((x + 1, y)) {
        assert(s.contains((x + 1, y)) && adjacent(x + 1, y, x, y));
    } else if s.contains((x - 1, y + 1)) {
        assert(s.contains((x - 1, y + 1)) && adjacent(x - 1, y + 1, x, y));
    } else if s.contains((x, y + 1)) {
        assert(s.contains((x, y + 1)) && adjacent(x, y + 1, x, y));
    } else if s.contains((x + 1, y + 1)) {
        assert(s.contains((x + 1, y + 1)) && adjacent(x + 1, y + 1, x, y));
    } else {
        assert(neighbor_count(s, x, y) == 0);
    }
}

/// Locality: every coordinate of the next generation is at Chebyshev distance
/// at most 1 from some member of the current population.
pub proof fn lemma_step_locality(s: Set<(int, int)>, x: int, y: int)
    requires
        next_live(s, x, y),
    ensures
        exists|q: (int, int)| s.contains(q) && near(q.0, q.1, x, y),
{
    if s.contains((x, y)) {
        assert(s.contains((x, y)) && near(x, y, x, y));
    } else {
        lemma_count_positive_has_neighbor(s, x, y);
        let q = choose|q: (int, int)| s.contains(q) && adjacent(q.0, q.1, x, y);
        assert(s.contains(q) && near(q.0, q.1, x, y));
    }
}

/// The 2 by 2 block is a still life: every member counts exactly 3
/// neighbors and survives, and no outside coordinate reaches count 3, so one
/// step returns the block unchanged.
#[verifier::rlimit(100)]
pub proof fn lemma_block_still_life(s: Set<(int, int)>)
    requires
        s =~= set![(0int, 0int), (1int, 0int), (0int, 1int), (1int, 1int)],
    ensures
        forall|p: (int, int)| s.contains(p) ==> neighbor_count(s, p.0, p.1) == 3,
        next_coords(s) =~= s,
{
    // each member sees the other three
    assert(neighbor_count(s, 0, 0) == 3);
    assert(neighbor_count(s, 1, 0) == 3);
    assert(neighbor_count(s, 0, 1) == 3);
    assert(neighbor_count(s, 1, 1) == 3);
    // no coordinate of the surrounding ring reaches 3
    assert(neighbor_count(s, -1, -1) == 1);
    assert(neighbor_count(s, 0, -1) == 2);
    assert(neighbor_count(s, 1, -1) == 2);
    assert(neighbor_count(s, 2, -1) == 1);
    assert(neighbor_count(s, -1, 0) == 2);
    assert(neighbor_count(s, 2, 0) == 2);
    assert(neighbor_count(s, -1, 1) == 2);
    assert(neighbor_count(s, 2, 1) == 2);
    assert(neighbor_count(s, -1, 2) == 1);
    assert(neighbor_count(s, 0, 2) == 2);
    assert(neighbor_count(s, 1, 2) == 2);
    assert(neighbor_count(s, 2, 2) == 1);
    assert forall|p: (int, int)| s.contains(p) implies neighbor_count(s, p.0, p.1) == 3 by {}
    assert forall|p: (int, int)| next_coords(s).contains(p) == s.contains(p) by {
        if !s.contains(p) && next_live(s, p.0, p.1) {
            lemma_count_positive_has_neighbor(s, p.0, p.1);
            let q = choose|q: (int, int)| s.contains(q) && adjacent(q.0, q.1, p.0, p.1);
            assert(-1 <= p.0 <= 2 && -1 <= p.1 <= 2);
            assert(false);
        }
    }
}

/// No spontaneous generation: the empty population stays empty.
pub proof fn lemma_empty_step_is_empty()
    ensures
        next_coords(Set::<(int, int)>::empty()) =~= Set::<(int, int)>::empty(),
{
    assert forall|p: (int, int)| !next_coords(Set::<(int, int)>::empty()).contains(p) by {
        assert(neighbor_count(Set::<(int, int)>::empty(), p.0, p.1) == 0);
    }
}

/// The population after `n` successive steps.
pub open spec fn iterated_step(s: Set<(int, int)>, n: nat) -> Set<(int, int)>
    decreases n,
{
    if n == 0 {
        s
    } else {
        next_coords(iterated_step(s, (n - 1) as nat))
    }
}

/// No spontaneous generation over any number of successive steps.
pub proof fn lemma_empty_stays_empty(n: nat)
    ensures
        iterated_step(Set::<(int, int)>::empty(), n) =~= Set::<(int, int)>::empty(),
    decreases n,
{
    if n > 0 {
        lemma_empty_stays_empty((n - 1) as nat);
        assert(iterated_step(Set::<(int, int)>::empty(), (n - 1) as nat) =~= Set::<(
            int,
            int,
        )>::empty());
        lemma_empty_step_is_empty();
        assert(next_coords(iterated_step(Set::<(int, int)>::empty(), (n - 1) as nat)) =~= Set::<(
            int,
            int,
        )>::empty());
    }
}

} // verus!
