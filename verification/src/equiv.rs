//! The two population representations agree: away from the torus boundary,
//! wrapping never fires, and the dense rule computes exactly the sparse rule.
use vstd::prelude::*;
use crate::cell::Cell;
use crate::dense::{torus_count, torus_next_live, Grid};
use crate::rules::{lemma_step_locality, near, neighbor_count, next_live};
use crate::sparse::{coords_of, has_coord};

verus! {

/// Representation equivalence: for a population that sits strictly inside
/// the grid (no live cell on its outermost ring), the dense toroidal step
/// and the sparse unbounded step produce identical next-generation
/// memberships, and the sparse next generation stays on the grid.
pub proof fn lemma_representation_equivalence(cells: Seq<Cell>, g: Grid)
    requires
        g.wf(),
        3 <= g.width(),
        3 <= g.height(),
        forall|x: int, y: int| #[trigger] has_coord(cells, x, y) <==> g.live(x, y),
        forall|x: int, y: int|
            #[trigger] g.live(x, y) ==> 1 <= x < g.width() - 1 && 1 <= y < g.height() - 1,
    ensures
        forall|x: int, y: int|
            0 <= x < g.width() && 0 <= y < g.height() ==> (#[trigger] torus_next_live(g, x, y)
                <==> next_live(coords_of(cells), x, y)),
        forall|x: int, y: int|
            #[trigger] next_live(coords_of(cells), x, y) ==> 0 <= x < g.width() && 0 <= y
                < g.height(),
{
    let s = coords_of(cells);
    assert forall|a: int, b: int| #[trigger] s.contains((a, b)) == g.live(a, b) by {
        assert(s.contains((a, b)) == has_coord(cells, a, b));
    }
    assert forall|x: int, y: int|
        0 <= x < g.width() && 0 <= y < g.height() implies (#[trigger] torus_next_live(g, x, y)
        <==> next_live(s, x, y)) by {
        let w = g.width();
        let h = g.height();
        assert(torus_count(g, x, y) == neighbor_count(s, x, y)) by {
            assert(!g.live(0, y - 1) && !g.live(0, y) && !g.live(0, y + 1));
            assert(!g.live(w - 1, y - 1) && !g.live(w - 1, y) && !g.live(w - 1, y + 1));
            assert(!g.live(x - 1, 0) && !g.live(x, 0) && !g.live(x + 1, 0));
            assert(!g.live(x - 1, h - 1) && !g.live(x, h - 1) && !g.live(x + 1, h - 1));
            assert(!g.live(-1, y - 1) && !g.live(-1, y) && !g.live(-1, y + 1));
            assert(!g.live(w, y - 1) && !g.live(w, y) && !g.live(w, y + 1));
            assert(!g.live(x - 1, -1) && !g.live(x, -1) && !g.live(x + 1, -1));
            assert(!g.live(x - 1, h) && !g.live(x, h) && !g.live(x + 1, h));
        }
        assert(s.contains((x, y)) == g.live(x, y));
    }
    assert forall|x: int, y: int| #[trigger]
        next_live(s, x, y) implies 0 <= x < g.width() && 0 <= y < g.height() by {
        lemma_step_locality(s, x, y);
        let q = choose|q: (int, int)| s.contains(q) && near(q.0, q.1, x, y);
        assert(g.live(q.0, q.1));
    }
}

} // verus!
