//! The sparse population: the live cells of one generation on the unbounded
//! plane, at most one cell per coordinate. Work per step is proportional to
//! the number of live cells, not to any world extent, and coordinates may be
//! negative; nothing wraps.
use vstd::prelude::*;
use crate::cell::{Cell, COORD_MAX, COORD_MIN};
use crate::color::{in_palette, Color, ColorSource};
use crate::rules::{adjacent, neighbor_count, next_live};

verus! {

/// Some cell of `cells` sits at (x, y).
pub open spec fn has_coord(cells: Seq<Cell>, x: int, y: int) -> bool {
    exists|i: int| 0 <= i < cells.len() && cells[i].x == x && cells[i].y == y
}

/// The coordinates of `cells`, as a set.
pub open spec fn coords_of(cells: Seq<Cell>) -> Set<(int, int)> {
    Set::new(|p: (int, int)| has_coord(cells, p.0, p.1))
}

/// No two cells share a coordinate.
pub open spec fn distinct_coords(cells: Seq<Cell>) -> bool {
    forall|i: int, j: int|
        0 <= i < j < cells.len() ==> !(cells[i].x == cells[j].x && cells[i].y == cells[j].y)
}

/// Every coordinate is far enough from the i64 limits that the step can look
/// two cells out without overflow.
pub open spec fn coords_bounded(cells: Seq<Cell>) -> bool {
    forall|i: int|
        0 <= i < cells.len() ==> COORD_MIN <= #[trigger] cells[i].x <= COORD_MAX && COORD_MIN
            <= cells[i].y <= COORD_MAX
}

/// Every age has room to grow by one.
pub open spec fn ages_bounded(cells: Seq<Cell>) -> bool {
    forall|i: int| 0 <= i < cells.len() ==> #[trigger] cells[i].age < u64::MAX
}

/// How one generation relates to the one computed from it: membership follows
/// the rule, survivors keep their color and age by one, newborns start at age
/// 0 with a palette color.
pub open spec fn step_rel(before: Seq<Cell>, after: Seq<Cell>, palette: Seq<Color>) -> bool {
    &&& forall|x: int, y: int|
        #[trigger] has_coord(after, x, y) <==> next_live(coords_of(before), x, y)
    &&& forall|i: int, j: int|
        0 <= i < after.len() && 0 <= j < before.len() && #[trigger] after[i].x == #[trigger]
            before[j].x && after[i].y == before[j].y ==> after[i].age == before[j].age + 1
            && after[i].color == before[j].color
    &&& forall|i: int|
        0 <= i < after.len() && !has_coord(before, #[trigger] after[i].x as int, after[i].y as int)
            ==> after[i].age == 0 && in_palette(after[i].color, palette)
}

/// Appending one cell adds exactly its coordinate.
pub proof fn lemma_has_coord_push(cells: Seq<Cell>, c: Cell, x: int, y: int)
    ensures
        has_coord(cells.push(c), x, y) <==> (has_coord(cells, x, y) || (c.x == x && c.y == y)),
{
    if has_coord(cells, x, y) {
        let i = choose|i: int| 0 <= i < cells.len() && cells[i].x == x && cells[i].y == y;
        assert(cells.push(c)[i].x == x && cells.push(c)[i].y == y);
    }
    if c.x == x && c.y == y {
        assert(cells.push(c)[cells.len() as int].x == x && cells.push(c)[cells.len() as int].y
            == y);
    }
    if has_coord(cells.push(c), x, y) {
        let i = choose|i: int|
            0 <= i < cells.push(c).len() && cells.push(c)[i].x == x && cells.push(c)[i].y == y;
        if i < cells.len() {
            assert(cells[i].x == x && cells[i].y == y);
        }
    }
}

/// A birth happens at a dead coordinate with exactly 3 live neighbors.
pub open spec fn birth_at(cells: Seq<Cell>, x: int, y: int) -> bool {
    !has_coord(cells, x, y) && neighbor_count(coords_of(cells), x, y) == 3
}

/// What holds of every newborn produced by a step over `cells`: its
/// coordinate was dead, its age starts at 0 and its color came from the
/// palette.
pub open spec fn newborn_ok(cells: Seq<Cell>, c: Cell, palette: Seq<Color>) -> bool {
    !has_coord(cells, c.x as int, c.y as int) && c.age == 0 && in_palette(c.color, palette)
}

/// What a spawn batch of the given offsets does to a population: the old
/// cells stay untouched in place, every added cell is a newborn, and a
/// coordinate is live afterwards exactly if it was live before or is the
/// target plus one of the offsets (insert-if-absent absorbs duplicates).
pub open spec fn sparse_spawned(
    before: Seq<Cell>,
    after: Seq<Cell>,
    tx: int,
    ty: int,
    offs: Seq<(i64, i64)>,
    palette: Seq<Color>,
) -> bool {
    &&& before.is_prefix_of(after)
    &&& after.len() <= before.len() + offs.len()
    &&& forall|k: int|
        before.len() <= k < after.len() ==> newborn_ok(before, #[trigger] after[k], palette)
    &&& forall|x: int, y: int|
        #[trigger] has_coord(after, x, y) <==> (has_coord(before, x, y) || (exists|i: int|
            0 <= i < offs.len() && x == tx + (#[trigger] offs[i]).0 && y == ty + offs[i].1))
}

/// Whether some cell of `v` sits at (x, y).
fn vec_has_coord(v: &Vec<Cell>, x: i64, y: i64) -> (b: bool)
    ensures
        b == has_coord(v@, x as int, y as int),
{
    let n = v.len();
    for i in 0..n
        invariant
            forall|j: int| 0 <= j < i ==> !(v@[j].x == x && v@[j].y == y),
    {
        if v[i].x == x && v[i].y == y {
            return true;
        }
    }
    false
}

/// Determinism: the step relation pins the next generation down as a pure
/// function of the input snapshot. Two populations standing in the relation
/// to the same snapshot agree on membership and age everywhere, and on color
/// wherever the cell is a survivor; only the palette draw of a newborn is
/// left open.
pub proof fn lemma_step_deterministic(
    before: Seq<Cell>,
    a: Seq<Cell>,
    b: Seq<Cell>,
    pal_a: Seq<Color>,
    pal_b: Seq<Color>,
)
    requires
        distinct_coords(before),
        step_rel(before, a, pal_a),
        step_rel(before, b, pal_b),
    ensures
        forall|x: int, y: int| #[trigger] has_coord(a, x, y) <==> #[trigger] has_coord(b, x, y),
        forall|i: int, j: int|
            0 <= i < a.len() && 0 <= j < b.len() && (#[trigger] a[i]).x == (#[trigger] b[j]).x
                && a[i].y == b[j].y ==> a[i].age == b[j].age && (has_coord(
                before,
                a[i].x as int,
                a[i].y as int,
            ) ==> a[i].color == b[j].color),
{
    assert forall|i: int, j: int|
        0 <= i < a.len() && 0 <= j < b.len() && (#[trigger] a[i]).x == (#[trigger] b[j]).x && a[i].y
            == b[j].y implies a[i].age == b[j].age && (has_coord(before, a[i].x as int, a[i].y as int)
        ==> a[i].color == b[j].color) by {
        if has_coord(before, a[i].x as int, a[i].y as int) {
            let t = choose|t: int|
                0 <= t < before.len() && before[t].x == a[i].x as int && before[t].y == a[i].y as int;
            assert(a[i].age == before[t].age + 1 && a[i].color == before[t].color);
            assert(b[j].age == before[t].age + 1 && b[j].color == before[t].color);
        } else {
            assert(a[i].age == 0);
            assert(!has_coord(before, b[j].x as int, b[j].y as int));
            assert(b[j].age == 0);
        }
    }
}

/// A coordinate live in a prefix is live in the whole.
pub proof fn lemma_has_coord_prefix(a: Seq<Cell>, b: Seq<Cell>, x: int, y: int)
    requires
        a.is_prefix_of(b),
        has_coord(a, x, y),
    ensures
        has_coord(b, x, y),
{
    let i = choose|i: int| 0 <= i < a.len() && a[i].x == x && a[i].y == y;
    assert(a[i] == b.subrange(0, a.len() as int)[i]);
    assert(b[i].x == x && b[i].y == y);
}

pub struct CellSet {
    cells: Vec<Cell>,
}

impl View for CellSet {
    type V = Seq<Cell>;

    closed spec fn view(&self) -> Seq<Cell> {
        self.cells@
    }
}

impl CellSet {
    pub open spec fn wf(self) -> bool {
        distinct_coords(self@)
    }

    /// The coordinate set of the population.
    pub open spec fn coords(self) -> Set<(int, int)> {
        coords_of(self@)
    }

    pub fn new() -> (s: CellSet)
        ensures
            s.wf(),
            s@ =~= Seq::<Cell>::empty(),
    {
        CellSet { cells: Vec::new() }
    }

    pub fn len(&self) -> (n: usize)
        ensures
            n == self@.len(),
    {
        self.cells.len()
    }

    /// The cells in their internal order; the order carries no meaning.
    pub fn cells(&self) -> (v: &Vec<Cell>)
        ensures
            v@ == self@,
    {
        &self.cells
    }

    /// Whether a cell is live at (x, y).
    pub fn has_cell(&self, x: i64, y: i64) -> (b: bool)
        ensures
            b == has_coord(self@, x as int, y as int),
    {
        let n = self.cells.len();
        for i in 0..n
            invariant
                forall|j: int| 0 <= j < i ==> !(self@[j].x == x && self@[j].y == y),
        {
            if self.cells[i].x == x && self.cells[i].y == y {
                return true;
            }
        }
        false
    }

    /// Number of live cells among the 8 neighbors of (x, y).
    pub fn count_neighbors(&self, x: i64, y: i64) -> (cnt: usize)
        requires
            COORD_MIN as int - 1 <= x as int <= COORD_MAX as int + 1,
            COORD_MIN as int - 1 <= y as int <= COORD_MAX as int + 1,
        ensures
            cnt == neighbor_count(self.coords(), x as int, y as int),
            cnt <= 8,
    {
        proof {
            assert forall|a: int, b: int| coords_of(self@).contains((a, b)) == has_coord(
                self@,
                a,
                b,
            ) by {}
        }
        let mut cnt: usize = 0;
        if self.has_cell(x - 1, y - 1) {
            cnt = cnt + 1;
        }
        if self.has_cell(x, y - 1) {
            cnt = cnt + 1;
        }
        if self.has_cell(x + 1, y - 1) {
            cnt = cnt + 1;
        }
        if self.has_cell(x - 1, y) {
            cnt = cnt + 1;
        }
        if self.has_cell(x + 1, y) {
            cnt = cnt + 1;
        }
        if self.has_cell(x - 1, y + 1) {
            cnt = cnt + 1;
        }
        if self.has_cell(x, y + 1) {
            cnt = cnt + 1;
        }
        if self.has_cell(x + 1, y + 1) {
            cnt = cnt + 1;
        }
        cnt
    }

    /// Insert a cell unless its coordinate is already live; never overwrites.
    pub fn insert_new(&mut self, cell: Cell) -> (inserted: bool)
        requires
            old(self).wf(),
        ensures
            final(self).wf(),
            inserted == !has_coord(old(self)@, cell.x as int, cell.y as int),
            inserted ==> final(self)@ == old(self)@.push(cell),
            !inserted ==> final(self)@ == old(self)@,
    {
        if self.has_cell(cell.x, cell.y) {
            false
        } else {
            proof {
                assert forall|x: int, y: int|
                    has_coord(self@.push(cell), x, y) <==> (has_coord(self@, x, y) || (cell.x == x
                        && cell.y == y)) by {
                    lemma_has_coord_push(self@, cell, x, y);
                }
            }
            self.cells.push(cell);
            true
        }
    }

    /// Whether a step can run: every coordinate far enough from the i64
    /// limits and every age below its ceiling.
    pub fn step_ready(&self) -> (r: bool)
        ensures
            r == (coords_bounded(self@) && ages_bounded(self@)),
    {
        let n = self.cells.len();
        for i in 0..n
            invariant
                forall|j: int|
                    0 <= j < i ==> COORD_MIN <= (#[trigger] self@[j]).x <= COORD_MAX && COORD_MIN
                        <= self@[j].y <= COORD_MAX && self@[j].age < u64::MAX,
        {
            let c = self.cells[i];
            if c.x < COORD_MIN || c.x > COORD_MAX || c.y < COORD_MIN || c.y > COORD_MAX || c.age
                == u64::MAX {
                proof {
                    assert(c == self@[i as int]);
                }
                return false;
            }
        }
        true
    }

    /// One generation: survivors and births over a frozen snapshot of the
    /// population; the input is never mutated, the result replaces it
    /// wholesale.
    pub fn step(&self, colors: &mut ColorSource) -> (next: CellSet)
        requires
            self.wf(),
            old(colors).wf(),
            coords_bounded(self@),
            ages_bounded(self@),
        ensures
            final(colors).wf(),
            final(colors).palette_view() == old(colors).palette_view(),
            next.wf(),
            step_rel(self@, next@, old(colors).palette_view()),
    {
        proof {
            assert forall|a: int, b: int| coords_of(self@).contains((a, b)) == has_coord(
                self@,
                a,
                b,
            ) by {}
        }
        let n = self.cells.len();
        let mut next: Vec<Cell> = Vec::new();
        // Survivors: every live cell with 2 or 3 live neighbors, aged by one.
        for i in 0..n
            invariant
                next@.len() <= i,
                distinct_coords(next@),
                forall|k: int|
                    0 <= k < next@.len() ==> has_coord(
                        self@,
                        (#[trigger] next@[k]).x as int,
                        next@[k].y as int,
                    ),
                forall|k: int, j: int|
                    0 <= k < next@.len() && 0 <= j < self@.len() && (#[trigger] next@[k]).x == (
                    #[trigger] self@[j]).x && next@[k].y == self@[j].y ==> next@[k].age == self@[
                        j
                    ].age + 1 && next@[k].color == self@[j].color,
                forall|x: int, y: int|
                    #[trigger] has_coord(next@, x, y) <==> ((exists|j: int|
                        0 <= j < i && self@[j].x == x && self@[j].y == y) && (neighbor_count(
                        coords_of(self@),
                        x,
                        y,
                    ) == 2 || neighbor_count(coords_of(self@), x, y) == 3)),
        {
            let c = self.cells[i];
            let ghost pre = next@;
            let cnt = self.count_neighbors(c.x, c.y);
            proof {
                assert(c == self@[i as int]);
            }
            if let Some(nc) = c.update(cnt) {
                proof {
                    if has_coord(next@, c.x as int, c.y as int) {
                        let j = choose|j: int|
                            0 <= j < i && self@[j].x == c.x as int && self@[j].y == c.y as int;
                        assert(false);
                    }
                    assert forall|x: int, y: int|
                        has_coord(next@.push(nc), x, y) <==> (has_coord(next@, x, y) || (nc.x == x
                            && nc.y == y)) by {
                        lemma_has_coord_push(next@, nc, x, y);
                    }
                }
                next.push(nc);
            }
            proof {
                assert forall|x: int, y: int| #[trigger]
                    has_coord(next@, x, y) <==> ((exists|j: int|
                        0 <= j < i + 1 && self@[j].x == x && self@[j].y == y) && (neighbor_count(
                        coords_of(self@),
                        x,
                        y,
                    ) == 2 || neighbor_count(coords_of(self@), x, y) == 3)) by {
                    if has_coord(next@, x, y) {
                        if has_coord(pre, x, y) {
                            let j = choose|j: int|
                                0 <= j < i && self@[j].x == x && self@[j].y == y;
                            assert(0 <= j < i + 1 && self@[j].x == x && self@[j].y == y);
                        } else {
                            assert(x == c.x as int && y == c.y as int);
                            assert(0 <= i < i + 1 && self@[i as int].x == x && self@[i as int].y
                                == y);
                        }
                    } else {
                        if (exists|j: int| 0 <= j < i + 1 && self@[j].x == x && self@[j].y == y) {
                            let j = choose|j: int|
                                0 <= j < i + 1 && self@[j].x == x && self@[j].y == y;
                            if j == i {
                                assert(x == c.x as int && y == c.y as int);
                            } else {
                                assert(has_coord(pre, x, y) ==> has_coord(next@, x, y));
                                assert(0 <= j < i && self@[j].x == x && self@[j].y == y);
                            }
                        }
                    }
                }
            }
        }
        // Births: every dead coordinate next to a live cell that counts
        // exactly 3 live neighbors, at most once.
        let mut born: Vec<Cell> = Vec::new();
        for i in 0..n
            invariant
                colors.wf(),
                colors.palette_view() == old(colors).palette_view(),
                distinct_coords(born@),
                forall|k: int|
                    0 <= k < born@.len() ==> newborn_ok(
                        self@,
                        #[trigger] born@[k],
                        old(colors).palette_view(),
                    ),
                forall|x: int, y: int|
                    #[trigger] has_coord(born@, x, y) <==> (birth_at(self@, x, y) && (exists|j: int|
                        0 <= j < i && adjacent(self@[j].x as int, self@[j].y as int, x, y))),
        {
            let c = self.cells[i];
            proof {
                assert(c == self@[i as int]);
            }
            let ghost prev = born@;
            self.try_birth(&mut born, c.x - 1, c.y - 1, colors);
            self.try_birth(&mut born, c.x, c.y - 1, colors);
            self.try_birth(&mut born, c.x + 1, c.y - 1, colors);
            self.try_birth(&mut born, c.x - 1, c.y, colors);
            self.try_birth(&mut born, c.x + 1, c.y, colors);
            self.try_birth(&mut born, c.x - 1, c.y + 1, colors);
            self.try_birth(&mut born, c.x, c.y + 1, colors);
            self.try_birth(&mut born, c.x + 1, c.y + 1, colors);
            proof {
                assert forall|x: int, y: int| #[trigger]
                    has_coord(born@, x, y) <==> (birth_at(self@, x, y) && (exists|j: int|
                        0 <= j < i + 1 && adjacent(self@[j].x as int, self@[j].y as int, x, y)))
                    by {
                    if has_coord(born@, x, y) {
                        if !has_coord(prev, x, y) {
                            assert(adjacent(self@[i as int].x as int, self@[i as int].y as int, x, y));
                        }
                    } else {
                        if birth_at(self@, x, y) && (exists|j: int|
                            0 <= j < i + 1 && adjacent(self@[j].x as int, self@[j].y as int, x, y)) {
                            let j = choose|j: int|
                                0 <= j < i + 1 && adjacent(self@[j].x as int, self@[j].y as int, x, y);
                            if j == i {
                                assert(x == c.x as int - 1 || x == c.x as int || x == c.x as int + 1);
                                assert(y == c.y as int - 1 || y == c.y as int || y == c.y as int + 1);
                                assert(false);
                            }
                        }
                    }
                }
            }
        }
        // A birth coordinate always has a live neighbor, so the scan above saw
        // every one of them.
        proof {
            assert forall|x: int, y: int| #[trigger]
                has_coord(born@, x, y) <==> birth_at(self@, x, y) by {
                if birth_at(self@, x, y) {
                    crate::rules::lemma_count_positive_has_neighbor(coords_of(self@), x, y);
                    let q = choose|q: (int, int)|
                        coords_of(self@).contains(q) && adjacent(q.0, q.1, x, y);
                    let j = choose|j: int|
                        0 <= j < self@.len() && self@[j].x == q.0 && self@[j].y == q.1;
                    assert(adjacent(self@[j].x as int, self@[j].y as int, x, y));
                }
            }
        }
        // Union: append the newborns to the survivors.
        let ghost survivors = next@;
        proof {
            assert(forall|k: int|
                0 <= k < survivors.len() ==> has_coord(
                    self@,
                    (#[trigger] survivors[k]).x as int,
                    survivors[k].y as int,
                ));
            assert(forall|k: int, j: int|
                0 <= k < survivors.len() && 0 <= j < self@.len() && (#[trigger] survivors[k]).x
                    == (#[trigger] self@[j]).x && survivors[k].y == self@[j].y ==> survivors[k].age
                    == self@[j].age + 1 && survivors[k].color == self@[j].color);
            assert forall|x: int, y: int| #[trigger]
                has_coord(survivors, x, y) <==> (has_coord(self@, x, y) && (neighbor_count(
                coords_of(self@),
                x,
                y,
            ) == 2 || neighbor_count(coords_of(self@), x, y) == 3)) by {
                assert(has_coord(self@, x, y) <==> (exists|j: int|
                    0 <= j < n && self@[j].x == x && self@[j].y == y));
            }
            assert(distinct_coords(survivors));
        }
        let m = born.len();
        for k in 0..m
            invariant
                next@.len() == survivors.len() + k,
                distinct_coords(next@),
                forall|t: int| 0 <= t < survivors.len() ==> next@[t] == survivors[t],
                forall|t: int| survivors.len() <= t < next@.len() ==> next@[t] == born@[t - survivors.len()],
                forall|x: int, y: int|
                    #[trigger] has_coord(next@, x, y) <==> (has_coord(survivors, x, y) || (exists|m2: int|
                        0 <= m2 < k && born@[m2].x == x && born@[m2].y == y)),
        {
            let b = born[k];
            let ghost pren = next@;
            proof {
                assert(b == born@[k as int]);
                assert(newborn_ok(self@, born@[k as int], old(colors).palette_view()));
                if has_coord(next@, b.x as int, b.y as int) {
                    if has_coord(survivors, b.x as int, b.y as int) {
                        assert(has_coord(self@, b.x as int, b.y as int));
                        assert(false);
                    } else {
                        let m2 = choose|m2: int|
                            0 <= m2 < k && born@[m2].x == b.x as int && born@[m2].y == b.y as int;
                        assert(false);
                    }
                }
                assert forall|x: int, y: int|
                    has_coord(next@.push(b), x, y) <==> (has_coord(next@, x, y) || (b.x == x && b.y
                        == y)) by {
                    lemma_has_coord_push(next@, b, x, y);
                }
            }
            next.push(b);
            proof {
                assert forall|x: int, y: int| #[trigger]
                    has_coord(next@, x, y) <==> (has_coord(survivors, x, y) || (exists|m2: int|
                        0 <= m2 < k + 1 && born@[m2].x == x && born@[m2].y == y)) by {
                    if has_coord(next@, x, y) {
                        if has_coord(pren, x, y) {
                            if !has_coord(survivors, x, y) {
                                let m2 = choose|m2: int|
                                    0 <= m2 < k && born@[m2].x == x && born@[m2].y == y;
                                assert(0 <= m2 < k + 1 && born@[m2].x == x && born@[m2].y == y);
                            }
                        } else {
                            assert(b.x == x && b.y == y);
                            assert(0 <= k < k + 1 && born@[k as int].x == x && born@[k as int].y
                                == y);
                        }
                    } else {
                        assert(!has_coord(pren, x, y) && !(b.x == x && b.y == y));
                        if (exists|m2: int| 0 <= m2 < k + 1 && born@[m2].x == x && born@[m2].y
                            == y) {
                            let m2 = choose|m2: int|
                                0 <= m2 < k + 1 && born@[m2].x == x && born@[m2].y == y;
                            if m2 < k {
                                assert(has_coord(pren, x, y));
                            } else {
                                assert(born@[m2] == born@[k as int]);
                            }
                            assert(false);
                        }
                    }
                }
            }
        }
        // Assemble: membership is exactly the rule.
        proof {
            assert forall|x: int, y: int| #[trigger]
                has_coord(next@, x, y) <==> next_live(coords_of(self@), x, y) by {
                assert(has_coord(survivors, x, y) <==> (has_coord(self@, x, y) && (neighbor_count(
                    coords_of(self@),
                    x,
                    y,
                ) == 2 || neighbor_count(coords_of(self@), x, y) == 3)));
                assert((exists|m2: int| 0 <= m2 < m && born@[m2].x == x && born@[m2].y == y)
                    <==> has_coord(born@, x, y));
            }
            assert forall|k2: int, j: int|
                0 <= k2 < next@.len() && 0 <= j < self@.len() && (#[trigger] next@[k2]).x == (
                #[trigger] self@[j]).x && next@[k2].y == self@[j].y implies next@[k2].age == self@[
                j
            ].age + 1 && next@[k2].color == self@[j].color by {
                if k2 < survivors.len() {
                    assert(next@[k2] == survivors[k2]);
                    assert(0 <= k2 < survivors.len() && survivors[k2].x == self@[j].x
                        && survivors[k2].y == self@[j].y);
                } else {
                    assert(next@[k2] == born@[k2 - survivors.len()]);
                    assert(newborn_ok(
                        self@,
                        born@[k2 - survivors.len()],
                        old(colors).palette_view(),
                    ));
                    assert(has_coord(self@, next@[k2].x as int, next@[k2].y as int));
                    assert(false);
                }
            }
            assert forall|k2: int|
                0 <= k2 < next@.len() && !has_coord(
                    self@,
                    #[trigger] next@[k2].x as int,
                    next@[k2].y as int,
                ) implies next@[k2].age == 0 && in_palette(
                next@[k2].color,
                old(colors).palette_view(),
            ) by {
                if k2 < survivors.len() {
                    assert(next@[k2] == survivors[k2]);
                    assert(has_coord(self@, survivors[k2].x as int, survivors[k2].y as int));
                } else {
                    assert(next@[k2] == born@[k2 - survivors.len()]);
                    assert(newborn_ok(
                        self@,
                        born@[k2 - survivors.len()],
                        old(colors).palette_view(),
                    ));
                }
            }
        }
        CellSet { cells: next }
    }

    /// Insert a newborn at (tx, ty) + offset for every offset of the batch,
    /// skipping coordinates that are already live; duplicate offsets are
    /// absorbed, so fewer cells than offsets may be inserted.
    pub fn spawn_offsets(
        &mut self,
        tx: i64,
        ty: i64,
        offsets: &Vec<(i64, i64)>,
        colors: &mut ColorSource,
    )
        requires
            old(self).wf(),
            old(colors).wf(),
            COORD_MIN as int + 5 <= tx as int <= COORD_MAX as int - 5,
            COORD_MIN as int + 5 <= ty as int <= COORD_MAX as int - 5,
            forall|k: int|
                0 <= k < offsets@.len() ==> -5 <= (#[trigger] offsets@[k]).0 <= 5 && -5
                    <= offsets@[k].1 <= 5,
        ensures
            final(self).wf(),
            final(colors).wf(),
            final(colors).palette_view() == old(colors).palette_view(),
            sparse_spawned(
                old(self)@,
                final(self)@,
                tx as int,
                ty as int,
                offsets@,
                old(colors).palette_view(),
            ),
    {
        let n = offsets.len();
        for k in 0..n
            invariant
                self.wf(),
                colors.wf(),
                colors.palette_view() == old(colors).palette_view(),
                old(self)@.is_prefix_of(self@),
                self@.len() <= old(self)@.len() + k,
                forall|t: int|
                    old(self)@.len() <= t < self@.len() ==> newborn_ok(
                        old(self)@,
                        #[trigger] self@[t],
                        old(colors).palette_view(),
                    ),
                forall|x: int, y: int|
                    #[trigger] has_coord(self@, x, y) <==> (has_coord(old(self)@, x, y) || (exists|
                        t: int|
                        0 <= t < k && x == tx + (#[trigger] offsets@[t]).0 && y == ty + offsets@[
                            t
                        ].1)),
        {
            let (dx, dy) = offsets[k];
            proof {
                assert((dx, dy) == offsets@[k as int]);
            }
            let nx = tx + dx;
            let ny = ty + dy;
            let ghost pre = self@;
            let was_live = self.has_cell(nx, ny);
            if !was_live {
                let col = colors.pick();
                let _inserted = self.insert_new(Cell::new(nx, ny, col));
            }
            proof {
                assert forall|x: int, y: int| #[trigger]
                    has_coord(self@, x, y) <==> (has_coord(old(self)@, x, y) || (exists|t: int|
                        0 <= t < k + 1 && x == tx + (#[trigger] offsets@[t]).0 && y == ty
                            + offsets@[t].1)) by {
                    if !was_live {
                        let cell = self@[pre.len() as int];
                        assert(self@ == pre.push(cell));
                        lemma_has_coord_push(pre, cell, x, y);
                        assert(has_coord(self@, x, y) <==> (has_coord(pre, x, y) || (cell.x == x
                            && cell.y == y)));
                    } else {
                        assert(self@ == pre);
                    }
                    if has_coord(self@, x, y) {
                        if has_coord(pre, x, y) {
                            if !has_coord(old(self)@, x, y) {
                                let t = choose|t: int|
                                    0 <= t < k && x == tx + offsets@[t].0 && y == ty + offsets@[
                                        t
                                    ].1;
                                assert(0 <= t < k + 1 && x == tx + offsets@[t].0 && y == ty
                                    + offsets@[t].1);
                            }
                        } else {
                            assert(x == nx as int && y == ny as int);
                            assert(0 <= k < k + 1 && x == tx + offsets@[k as int].0 && y == ty
                                + offsets@[k as int].1);
                        }
                    } else {
                        if (exists|t: int|
                            0 <= t < k + 1 && x == tx + offsets@[t].0 && y == ty + offsets@[t].1) {
                            let t = choose|t: int|
                                0 <= t < k + 1 && x == tx + offsets@[t].0 && y == ty + offsets@[
                                    t
                                ].1;
                            if t < k {
                                assert(has_coord(pre, x, y));
                                assert(has_coord(self@, x, y));
                            } else {
                                assert(x == nx as int && y == ny as int);
                                assert(has_coord(self@, x, y));
                            }
                            assert(false);
                        }
                    }
                }
            }
        }
    }

    /// The square brush: `count` offsets drawn uniformly from the 11 by 11
    /// square around the target, a newborn at each target + offset, live
    /// coordinates never overwritten. Which offsets were drawn is chance,
    /// but some sequence of `count` in-square offsets accounts exactly for
    /// the membership: a dead square coordinate hit by a draw is live
    /// afterwards, and nothing else changes.
    pub fn spawn_square(&mut self, tx: i64, ty: i64, count: usize, colors: &mut ColorSource)
        requires
            old(self).wf(),
            old(colors).wf(),
            COORD_MIN as int + 5 <= tx as int <= COORD_MAX as int - 5,
            COORD_MIN as int + 5 <= ty as int <= COORD_MAX as int - 5,
        ensures
            final(self).wf(),
            final(colors).wf(),
            final(colors).palette_view() == old(colors).palette_view(),
            forall|k: int|
                old(self)@.len() <= k < final(self)@.len() ==> tx - 5 <= (#[trigger] final(self)@[k]).x
                    <= tx + 5 && ty - 5 <= final(self)@[k].y <= ty + 5,
            exists|d: Seq<(i64, i64)>|
                #[trigger] sparse_spawned(
                    old(self)@,
                    final(self)@,
                    tx as int,
                    ty as int,
                    d,
                    old(colors).palette_view(),
                ) && d.len() == count && (forall|i: int|
                    0 <= i < d.len() ==> -5 <= (#[trigger] d[i]).0 <= 5 && -5 <= d[i].1 <= 5),
    {
        let ghost mut drawn: Seq<(i64, i64)> = Seq::empty();
        for c in 0..count
            invariant
                self.wf(),
                colors.wf(),
                colors.palette_view() == old(colors).palette_view(),
                old(self)@.is_prefix_of(self@),
                self@.len() <= old(self)@.len() + c,
                drawn.len() == c,
                forall|i: int|
                    0 <= i < drawn.len() ==> -5 <= (#[trigger] drawn[i]).0 <= 5 && -5 <= drawn[
                        i
                    ].1 <= 5,
                forall|k: int|
                    old(self)@.len() <= k < self@.len() ==> newborn_ok(
                        old(self)@,
                        #[trigger] self@[k],
                        old(colors).palette_view(),
                    ) && tx - 5 <= self@[k].x <= tx + 5 && ty - 5 <= self@[k].y <= ty + 5,
                forall|x: int, y: int|
                    #[trigger] has_coord(self@, x, y) <==> (has_coord(old(self)@, x, y) || (exists|
                        i: int|
                        0 <= i < drawn.len() && x == tx + (#[trigger] drawn[i]).0 && y == ty
                            + drawn[i].1)),
        {
            let dx = crate::rng::random_index(11) as i64 - 5;
            let dy = crate::rng::random_index(11) as i64 - 5;
            let nx = tx + dx;
            let ny = ty + dy;
            let ghost pre = self@;
            let ghost pre_drawn = drawn;
            proof {
                drawn = drawn.push((dx, dy));
            }
            let was_live = self.has_cell(nx, ny);
            if !was_live {
                let col = colors.pick();
                let _inserted = self.insert_new(Cell::new(nx, ny, col));
            }
            proof {
                assert forall|k: int|
                    old(self)@.len() <= k < self@.len() implies newborn_ok(
                    old(self)@,
                    #[trigger] self@[k],
                    old(colors).palette_view(),
                ) && tx - 5 <= self@[k].x <= tx + 5 && ty - 5 <= self@[k].y <= ty + 5 by {
                    if k < pre.len() {
                        assert(self@[k] == pre[k]);
                    } else {
                        assert(self@ == pre.push(self@[pre.len() as int]));
                        if has_coord(old(self)@, nx as int, ny as int) {
                            lemma_has_coord_prefix(old(self)@, pre, nx as int, ny as int);
                            assert(false);
                        }
                    }
                }
                assert forall|x: int, y: int| #[trigger]
                    has_coord(self@, x, y) <==> (has_coord(old(self)@, x, y) || (exists|i: int|
                        0 <= i < drawn.len() && x == tx + (#[trigger] drawn[i]).0 && y == ty
                            + drawn[i].1)) by {
                    if !was_live {
                        let cell = self@[pre.len() as int];
                        assert(self@ == pre.push(cell));
                        lemma_has_coord_push(pre, cell, x, y);
                        assert(has_coord(self@, x, y) <==> (has_coord(pre, x, y) || (cell.x == x
                            && cell.y == y)));
                    } else {
                        assert(self@ == pre);
                    }
                    if has_coord(self@, x, y) {
                        if has_coord(pre, x, y) {
                            if !has_coord(old(self)@, x, y) {
                                let i = choose|i: int|
                                    0 <= i < pre_drawn.len() && x == tx + pre_drawn[i].0 && y == ty
                                        + pre_drawn[i].1;
                                assert(drawn[i] == pre_drawn[i]);
                                assert(0 <= i < drawn.len() && x == tx + drawn[i].0 && y == ty
                                    + drawn[i].1);
                            }
                        } else {
                            assert(x == nx as int && y == ny as int);
                            assert(drawn[pre_drawn.len() as int] == (dx, dy));
                            assert(0 <= pre_drawn.len() < drawn.len() && x == tx + drawn[pre_drawn.len() as int].0
                                && y == ty + drawn[pre_drawn.len() as int].1);
                        }
                    } else {
                        if (exists|i: int|
                            0 <= i < drawn.len() && x == tx + drawn[i].0 && y == ty + drawn[i].1) {
                            let i = choose|i: int|
                                0 <= i < drawn.len() && x == tx + drawn[i].0 && y == ty + drawn[
                                    i
                                ].1;
                            if i < pre_drawn.len() {
                                assert(drawn[i] == pre_drawn[i]);
                                assert(has_coord(pre, x, y));
                                assert(has_coord(self@, x, y));
                            } else {
                                assert(drawn[i] == (dx, dy));
                                assert(x == nx as int && y == ny as int);
                                assert(has_coord(self@, x, y));
                            }
                            assert(false);
                        }
                    }
                }
            }
        }
        proof {
            assert(sparse_spawned(
                old(self)@,
                self@,
                tx as int,
                ty as int,
                drawn,
                old(colors).palette_view(),
            ));
        }
    }

    /// A fresh population of exactly `count` cells at distinct coordinates
    /// drawn uniformly from the square [0, extent) by [0, extent), each a
    /// newborn with a palette color.
    pub fn random_filled(count: usize, extent: usize, colors: &mut ColorSource) -> (s: CellSet)
        requires
            old(colors).wf(),
            0 < extent <= 1000,
            count <= extent * extent,
        ensures
            final(colors).wf(),
            final(colors).palette_view() == old(colors).palette_view(),
            s.wf(),
            s@.len() == count,
            forall|k: int|
                0 <= k < s@.len() ==> 0 <= (#[trigger] s@[k]).x < extent && 0 <= s@[k].y < extent
                    && s@[k].age == 0 && in_palette(s@[k].color, old(colors).palette_view()),
    {
        // Every coordinate of the square, in row order.
        let mut coords: Vec<(i64, i64)> = Vec::new();
        for x in 0..extent
            invariant
                coords@.len() == x * extent,
                forall|t: int|
                    0 <= t < coords@.len() ==> 0 <= (#[trigger] coords@[t]).0 < x && 0 <= coords@[
                        t
                    ].1 < extent,
                forall|t1: int, t2: int|
                    0 <= t1 < t2 < coords@.len() ==> coords@[t1] != coords@[t2],
        {
            for y in 0..extent
                invariant
                    coords@.len() == x * extent + y,
                    forall|t: int|
                        0 <= t < coords@.len() ==> (0 <= (#[trigger] coords@[t]).0 < x || (coords@[
                            t
                        ].0 == x && 0 <= coords@[t].1 < y)) && 0 <= coords@[t].1 < extent,
                    forall|t1: int, t2: int|
                        0 <= t1 < t2 < coords@.len() ==> coords@[t1] != coords@[t2],
            {
                proof {
                    assert(x * extent + extent <= extent * extent) by (nonlinear_arith)
                        requires
                            0 <= x < extent,
                    ;
                }
                coords.push((x as i64, y as i64));
            }
            proof {
                assert((x + 1) * extent == x * extent + extent) by (nonlinear_arith);
            }
        }
        // Uniform shuffle, so that the prefix taken below is a uniform sample.
        let total = coords.len();
        for i in 0..total
            invariant
                coords@.len() == total,
                forall|t: int|
                    0 <= t < coords@.len() ==> 0 <= (#[trigger] coords@[t]).0 < extent && 0
                        <= coords@[t].1 < extent,
                forall|t1: int, t2: int|
                    0 <= t1 < t2 < coords@.len() ==> coords@[t1] != coords@[t2],
        {
            let j = i + crate::rng::random_index(total - i);
            let a = coords[i];
            let b = coords[j];
            coords.set(i, b);
            coords.set(j, a);
            proof {
                assert forall|t1: int, t2: int|
                    0 <= t1 < t2 < coords@.len() implies coords@[t1] != coords@[t2] by {}
            }
        }
        // The first `count` entries become the population.
        let mut s = CellSet::new();
        for k in 0..count
            invariant
                colors.wf(),
                colors.palette_view() == old(colors).palette_view(),
                s.wf(),
                s@.len() == k,
                coords@.len() == total,
                count <= total,
                forall|t: int|
                    0 <= t < coords@.len() ==> 0 <= (#[trigger] coords@[t]).0 < extent && 0
                        <= coords@[t].1 < extent,
                forall|t1: int, t2: int|
                    0 <= t1 < t2 < coords@.len() ==> coords@[t1] != coords@[t2],
                forall|t: int|
                    0 <= t < k ==> (#[trigger] s@[t]).x as int == coords@[t].0 as int && s@[t].y
                        as int == coords@[t].1 as int && s@[t].age == 0 && in_palette(
                        s@[t].color,
                        old(colors).palette_view(),
                    ),
        {
            let (cx, cy) = coords[k];
            proof {
                assert((cx, cy) == coords@[k as int]);
                if has_coord(s@, cx as int, cy as int) {
                    let t = choose|t: int| 0 <= t < k && s@[t].x == cx as int && s@[t].y == cy as int;
                    assert(coords@[t] == coords@[k as int]);
                    assert(false);
                }
            }
            let col = colors.pick();
            let _inserted = s.insert_new(Cell::new(cx, cy, col));
        }
        s
    }

    /// Append a newborn to `born` if (nx, ny) is a birth coordinate that
    /// `born` does not hold yet.
    fn try_birth(&self, born: &mut Vec<Cell>, nx: i64, ny: i64, colors: &mut ColorSource)
        requires
            old(colors).wf(),
            COORD_MIN as int - 1 <= nx as int <= COORD_MAX as int + 1,
            COORD_MIN as int - 1 <= ny as int <= COORD_MAX as int + 1,
            distinct_coords(old(born)@),
            forall|k: int|
                0 <= k < old(born)@.len() ==> newborn_ok(
                    self@,
                    #[trigger] old(born)@[k],
                    old(colors).palette_view(),
                ),
        ensures
            final(colors).wf(),
            final(colors).palette_view() == old(colors).palette_view(),
            distinct_coords(final(born)@),
            forall|k: int|
                0 <= k < final(born)@.len() ==> newborn_ok(
                    self@,
                    #[trigger] final(born)@[k],
                    old(colors).palette_view(),
                ),
            forall|x: int, y: int|
                #[trigger] has_coord(final(born)@, x, y) <==> (has_coord(old(born)@, x, y) || (x
                    == nx as int && y == ny as int && birth_at(self@, nx as int, ny as int))),
    {
        proof {
            assert forall|a: int, b: int| coords_of(self@).contains((a, b)) == has_coord(
                self@,
                a,
                b,
            ) by {}
        }
        if !self.has_cell(nx, ny) {
            let cnt = self.count_neighbors(nx, ny);
            if cnt == 3 {
                if !vec_has_coord(born, nx, ny) {
                    let col = colors.pick();
                    let cell = Cell::new(nx, ny, col);
                    proof {
                        assert forall|x: int, y: int|
                            has_coord(born@.push(cell), x, y) <==> (has_coord(born@, x, y) || (
                            cell.x == x && cell.y == y)) by {
                            lemma_has_coord_push(born@, cell, x, y);
                        }
                    }
                    born.push(cell);
                    proof {
                        assert forall|k: int| 0 <= k < born@.len() implies newborn_ok(
                            self@,
                            #[trigger] born@[k],
                            old(colors).palette_view(),
                        ) by {
                            if k < born@.len() - 1 {
                                assert(born@[k] == old(born)@[k]);
                            } else {
                                assert(born@[k] == cell);
                            }
                        }
                    }
                }
            }
        }
    }
}

} // verus!
