//! The dense population: a fixed-size toroidal grid of optional colors.
//! Neighbor coordinates wrap on both axes, the cost of one step is the grid
//! area regardless of how many cells are live, and each step double-buffers:
//! the next grid is built in full before it replaces the old one.
use vstd::prelude::*;
use crate::cell::Cell;
use crate::color::{in_palette, Color, ColorSource};

verus! {

/// Dimensions up to this limit keep the flat index w * h within usize on
/// every machine the crate builds for.
pub const DIM_MAX: usize = 46340;

/// The wrapped coordinate one step down from `i` on an axis of length `n`:
/// 0 wraps to n - 1.
pub open spec fn wdec(i: int, n: int) -> int {
    if i == 0 {
        n - 1
    } else {
        i - 1
    }
}

/// The wrapped coordinate one step up from `i` on an axis of length `n`:
/// n - 1 wraps to 0.
pub open spec fn winc(i: int, n: int) -> int {
    if i + 1 == n {
        0
    } else {
        i + 1
    }
}

pub struct Grid {
    w: usize,
    h: usize,
    cells: Vec<Option<Color>>,
}

/// The entry of a row-major sheet of width `w` at column `x`, row `y`.
pub open spec fn at(cells: Seq<Option<Color>>, w: int, x: int, y: int) -> Option<Color> {
    cells[y * w + x]
}

impl Grid {
    pub closed spec fn width(self) -> int {
        self.w as int
    }

    pub closed spec fn height(self) -> int {
        self.h as int
    }

    pub closed spec fn cell(self, x: int, y: int) -> Option<Color> {
        at(self.cells@, self.width(), x, y)
    }

    pub closed spec fn wf(self) -> bool {
        self.cells@.len() == self.width() * self.height() && self.width() <= DIM_MAX
            && self.height() <= DIM_MAX
    }

    /// A cell is live at (x, y): the coordinate is on the grid and holds a
    /// color.
    pub open spec fn live(self, x: int, y: int) -> bool {
        0 <= x < self.width() && 0 <= y < self.height() && self.cell(x, y) is Some
    }

    /// An empty grid of the given dimensions.
    pub fn new(w: usize, h: usize) -> (g: Grid)
        requires
            w <= DIM_MAX,
            h <= DIM_MAX,
        ensures
            g.wf(),
            g.width() == w,
            g.height() == h,
            forall|x: int, y: int| 0 <= x < w && 0 <= y < h ==> !(#[trigger] g.live(x, y)),
    {
        proof {
            assert(w * h <= DIM_MAX * DIM_MAX) by (nonlinear_arith)
                requires
                    0 <= w <= DIM_MAX && 0 <= h <= DIM_MAX,
            ;
        }
        let total = w * h;
        let mut cells: Vec<Option<Color>> = Vec::new();
        for i in 0..total
            invariant
                cells@.len() == i,
                forall|t: int| 0 <= t < i ==> (#[trigger] cells@[t]) is None,
        {
            cells.push(None);
        }
        let g = Grid { w, h, cells };
        proof {
            assert forall|x: int, y: int| 0 <= x < w && 0 <= y < h implies !(#[trigger] g.live(
                x,
                y,
            )) by {
                assert(0 <= y * w + x < w * h) by (nonlinear_arith)
                    requires
                        0 <= x < w && 0 <= y < h,
                ;
            }
        }
        g
    }

    pub fn width_len(&self) -> (r: usize)
        ensures
            r == self.width(),
            self.wf() ==> r <= DIM_MAX,
    {
        self.w
    }

    pub fn height_len(&self) -> (r: usize)
        ensures
            r == self.height(),
            self.wf() ==> r <= DIM_MAX,
    {
        self.h
    }

    /// The entry at an on-grid coordinate.
    pub fn get(&self, x: usize, y: usize) -> (r: Option<Color>)
        requires
            self.wf(),
            x < self.width(),
            y < self.height(),
        ensures
            r == self.cell(x as int, y as int),
            r is Some ==> self.live(x as int, y as int),
    {
        proof {
            assert(0 <= y * self.width() + x < self.width() * self.height()) by (nonlinear_arith)
                requires
                    0 <= x < self.width() && 0 <= y < self.height(),
            ;
            assert(self.width() * self.height() <= DIM_MAX * DIM_MAX) by (nonlinear_arith)
                requires
                    0 <= self.width() <= DIM_MAX && 0 <= self.height() <= DIM_MAX,
            ;
        }
        self.cells[y * self.w + x]
    }

    /// Insert a color at a world coordinate unless it is off the grid or the
    /// cell is already live; never overwrites.
    pub fn insert_new(&mut self, x: i64, y: i64, color: Color) -> (inserted: bool)
        requires
            old(self).wf(),
        ensures
            final(self).wf(),
            final(self).width() == old(self).width(),
            final(self).height() == old(self).height(),
            inserted == (0 <= x < old(self).width() && 0 <= y < old(self).height() && !old(
                self,
            ).live(x as int, y as int)),
            inserted ==> final(self).cell(x as int, y as int) == Some(color),
            forall|a: int, b: int|
                0 <= a < old(self).width() && 0 <= b < old(self).height() && !(a == x && b == y)
                    ==> #[trigger] final(self).cell(a, b) == old(self).cell(a, b),
            !inserted ==> *final(self) == *old(self),
    {
        if x < 0 || y < 0 {
            return false;
        }
        if x >= self.w as i64 || y >= self.h as i64 {
            return false;
        }
        let xu = x as usize;
        let yu = y as usize;
        proof {
            assert(xu as int == x as int && yu as int == y as int);
            assert(0 <= yu * self.width() + xu < self.width() * self.height())
                by (nonlinear_arith)
                requires
                    0 <= xu < self.width() && 0 <= yu < self.height(),
            ;
            assert(self.width() * self.height() <= DIM_MAX * DIM_MAX) by (nonlinear_arith)
                requires
                    0 <= self.width() <= DIM_MAX && 0 <= self.height() <= DIM_MAX,
            ;
        }
        let i = yu * self.w + xu;
        if self.cells[i].is_some() {
            return false;
        }
        self.cells.set(i, Some(color));
        proof {
            assert forall|a: int, b: int|
                0 <= a < old(self).width() && 0 <= b < old(self).height() && !(a == x && b == y)
                    implies #[trigger] final(self).cell(a, b) == old(self).cell(a, b) by {
                assert(0 <= b * self.width() + a < self.width() * self.height())
                    by (nonlinear_arith)
                    requires
                        0 <= a < self.width() && 0 <= b < self.height(),
                ;
                assert(b * self.width() + a != yu * self.width() + xu) by (nonlinear_arith)
                    requires
                        0 <= a < self.width(),
                        0 <= xu < self.width(),
                        0 <= b,
                        0 <= yu,
                        !(a == xu && b == yu),
                ;
            }
        }
        true
    }

    /// Live cells among the 8 torus-wrapped neighbors of an on-grid
    /// coordinate. On an axis of length 1 the two wrapped neighbors coincide
    /// with the coordinate itself and are counted per slot, as the wrap rule
    /// says.
    #[verifier::rlimit(60)]
    pub fn count_torus(&self, x: usize, y: usize) -> (cnt: usize)
        requires
            self.wf(),
            x < self.width(),
            y < self.height(),
        ensures
            cnt == torus_count(*self, x as int, y as int),
            cnt <= 8,
    {
        let xl = if x == 0 {
            self.w - 1
        } else {
            x - 1
        };
        let xr = if x + 1 == self.w {
            0
        } else {
            x + 1
        };
        let yu = if y == 0 {
            self.h - 1
        } else {
            y - 1
        };
        let yd = if y + 1 == self.h {
            0
        } else {
            y + 1
        };
        let mut cnt: usize = 0;
        if self.get(xl, yu).is_some() {
            cnt = cnt + 1;
        }
        if self.get(x, yu).is_some() {
            cnt = cnt + 1;
        }
        if self.get(xr, yu).is_some() {
            cnt = cnt + 1;
        }
        if self.get(xl, y).is_some() {
            cnt = cnt + 1;
        }
        if self.get(xr, y).is_some() {
            cnt = cnt + 1;
        }
        if self.get(xl, yd).is_some() {
            cnt = cnt + 1;
        }
        if self.get(x, yd).is_some() {
            cnt = cnt + 1;
        }
        if self.get(xr, yd).is_some() {
            cnt = cnt + 1;
        }
        cnt
    }
}

/// 1 if the grid is live at (x, y), else 0.
pub open spec fn tocc(g: Grid, x: int, y: int) -> int {
    if g.live(x, y) {
        1int
    } else {
        0int
    }
}

/// Live cells among the 8 torus-wrapped neighbor slots of (x, y).
pub open spec fn torus_count(g: Grid, x: int, y: int) -> int {
    let xl = wdec(x, g.width());
    let xr = winc(x, g.width());
    let yu = wdec(y, g.height());
    let yd = winc(y, g.height());
    tocc(g, xl, yu) + tocc(g, x, yu) + tocc(g, xr, yu) + tocc(g, xl, y) + tocc(g, xr, y) + tocc(
        g,
        xl,
        yd,
    ) + tocc(g, x, yd) + tocc(g, xr, yd)
}

/// Live cells of row `y` among columns 0 to `x` exclusive.
pub open spec fn row_live_count(g: Grid, y: int, x: int) -> int
    decreases x,
{
    if x <= 0 {
        0
    } else {
        row_live_count(g, y, x - 1) + tocc(g, x - 1, y)
    }
}

/// Live cells among rows 0 to `y` exclusive.
pub open spec fn live_count_upto(g: Grid, y: int) -> int
    decreases y,
{
    if y <= 0 {
        0
    } else {
        live_count_upto(g, y - 1) + row_live_count(g, y - 1, g.width())
    }
}

/// How many cells are live on the whole grid.
pub open spec fn live_count(g: Grid) -> int {
    live_count_upto(g, g.height())
}

/// The rule on the torus: survive on 2 or 3, born on exactly 3.
pub open spec fn torus_next_live(g: Grid, x: int, y: int) -> bool {
    if g.live(x, y) {
        torus_count(g, x, y) == 2 || torus_count(g, x, y) == 3
    } else {
        torus_count(g, x, y) == 3
    }
}

/// What a spawn batch of the given offsets does to a grid: the old cells
/// keep their colors, every newly live cell holds a palette color, and a
/// coordinate is live afterwards exactly if it was live before or is an
/// on-grid target + offset; off-grid offsets are dropped, nothing wraps.
pub open spec fn dense_spawned(
    before: Grid,
    after: Grid,
    tx: int,
    ty: int,
    offs: Seq<(i64, i64)>,
    palette: Seq<Color>,
) -> bool {
    &&& after.width() == before.width()
    &&& after.height() == before.height()
    &&& forall|x: int, y: int|
        #[trigger] before.live(x, y) ==> after.cell(x, y) == before.cell(x, y)
    &&& forall|x: int, y: int|
        #[trigger] after.live(x, y) <==> (before.live(x, y) || (0 <= x < before.width() && 0 <= y
            < before.height() && (exists|i: int|
            0 <= i < offs.len() && x == tx + (#[trigger] offs[i]).0 && y == ty + offs[i].1)))
    &&& forall|x: int, y: int|
        #[trigger] after.live(x, y) && !before.live(x, y) ==> (after.cell(x, y) matches Some(c)
            && in_palette(c, palette))
}

/// One insert-if-absent at target + `d` extends a spawn batch by the offset
/// `d`: the hypotheses are exactly what `Grid::insert_new` ensures of the
/// grid before (`preg`) and after (`g`) the call.
pub proof fn lemma_spawn_insert_step(
    g0: Grid,
    preg: Grid,
    g: Grid,
    tx: int,
    ty: int,
    d: (i64, i64),
    pre_offs: Seq<(i64, i64)>,
    palette: Seq<Color>,
    col: Color,
    inserted: bool,
)
    requires
        dense_spawned(g0, preg, tx, ty, pre_offs, palette),
        g.width() == preg.width(),
        g.height() == preg.height(),
        inserted == (0 <= tx + d.0 < preg.width() && 0 <= ty + d.1 < preg.height() && !preg.live(
            tx + d.0,
            ty + d.1,
        )),
        inserted ==> g.cell(tx + d.0, ty + d.1) == Some(col),
        forall|a: int, b: int|
            0 <= a < preg.width() && 0 <= b < preg.height() && !(a == tx + d.0 && b == ty + d.1)
                ==> #[trigger] g.cell(a, b) == preg.cell(a, b),
        !inserted ==> g == preg,
        in_palette(col, palette),
    ensures
        dense_spawned(g0, g, tx, ty, pre_offs.push(d), palette),
{
    let offs = pre_offs.push(d);
    let nx = tx + d.0;
    let ny = ty + d.1;
    assert forall|a: int, b: int| #[trigger] g0.live(a, b) implies g.cell(a, b) == g0.cell(
        a,
        b,
    ) by {
        assert(preg.cell(a, b) == g0.cell(a, b));
        assert(preg.live(a, b));
        if a == nx && b == ny {
            assert(!inserted);
            assert(g == preg);
        } else {
            assert(g.cell(a, b) == preg.cell(a, b));
        }
    }
    assert forall|a: int, b: int| #[trigger]
        g.live(a, b) <==> (g0.live(a, b) || (0 <= a < g0.width() && 0 <= b < g0.height() && (
        exists|i: int|
            0 <= i < offs.len() && a == tx + (#[trigger] offs[i]).0 && b == ty + offs[i].1))) by {
        assert(offs[pre_offs.len() as int] == d);
        if g.live(a, b) {
            if preg.live(a, b) {
                if !g0.live(a, b) {
                    let i = choose|i: int|
                        0 <= i < pre_offs.len() && a == tx + pre_offs[i].0 && b == ty + pre_offs[
                            i
                        ].1;
                    assert(offs[i] == pre_offs[i]);
                    assert(0 <= i < offs.len() && a == tx + offs[i].0 && b == ty + offs[i].1);
                }
            } else {
                if !(a == nx && b == ny) {
                    assert(g.cell(a, b) == preg.cell(a, b));
                    assert(false);
                }
                assert(inserted);
                assert(0 <= pre_offs.len() < offs.len() && a == tx + offs[pre_offs.len() as int].0
                    && b == ty + offs[pre_offs.len() as int].1);
            }
        } else {
            if g0.live(a, b) {
                assert(g.cell(a, b) == g0.cell(a, b));
                assert(false);
            }
            if 0 <= a < g0.width() && 0 <= b < g0.height() && (exists|i: int|
                0 <= i < offs.len() && a == tx + offs[i].0 && b == ty + offs[i].1) {
                let i = choose|i: int|
                    0 <= i < offs.len() && a == tx + offs[i].0 && b == ty + offs[i].1;
                if i < pre_offs.len() {
                    assert(offs[i] == pre_offs[i]);
                    assert(preg.live(a, b));
                    if a == nx && b == ny {
                        assert(!inserted);
                        assert(g == preg);
                    } else {
                        assert(g.cell(a, b) == preg.cell(a, b));
                    }
                    assert(g.live(a, b));
                } else {
                    assert(offs[i] == d);
                    assert(a == nx && b == ny);
                    if preg.live(nx, ny) {
                        assert(!inserted);
                        assert(g == preg);
                    } else {
                        assert(inserted);
                        assert(g.cell(nx, ny) == Some(col));
                    }
                    assert(g.live(a, b));
                }
                assert(false);
            }
        }
    }
    assert forall|a: int, b: int| #[trigger]
        g.live(a, b) && !g0.live(a, b) implies (g.cell(a, b) matches Some(c2) && in_palette(
        c2,
        palette,
    )) by {
        if a == nx && b == ny {
            if inserted {
                assert(g.cell(a, b) == Some(col));
            } else {
                assert(g == preg);
                assert(preg.live(a, b) && !g0.live(a, b));
            }
        } else {
            assert(g.cell(a, b) == preg.cell(a, b));
            assert(preg.live(a, b) && !g0.live(a, b));
        }
    }
}

/// What one entry of the next grid must hold: a survivor keeps its color, a
/// birth draws a palette color, everything else is empty.
pub open spec fn step_cell_ok(g: Grid, v: Option<Color>, x: int, y: int, palette: Seq<
    Color,
>) -> bool {
    if torus_next_live(g, x, y) {
        if g.live(x, y) {
            v == g.cell(x, y)
        } else {
            v matches Some(c) && in_palette(c, palette)
        }
    } else {
        v is None
    }
}

impl Grid {
    /// One generation over the whole torus, double-buffered: the result is
    /// built in full from the frozen input.
    pub fn step(&self, colors: &mut ColorSource) -> (next: Grid)
        requires
            self.wf(),
            old(colors).wf(),
        ensures
            final(colors).wf(),
            final(colors).palette_view() == old(colors).palette_view(),
            next.wf(),
            next.width() == self.width(),
            next.height() == self.height(),
            forall|x: int, y: int|
                0 <= x < self.width() && 0 <= y < self.height() ==> step_cell_ok(
                    *self,
                    #[trigger] next.cell(x, y),
                    x,
                    y,
                    old(colors).palette_view(),
                ),
            forall|x: int, y: int|
                0 <= x < self.width() && 0 <= y < self.height() ==> (#[trigger] next.live(x, y)
                    == torus_next_live(*self, x, y)),
    {
        let w = self.w;
        let h = self.h;
        let mut out: Vec<Option<Color>> = Vec::new();
        proof {
            assert(0int * (w as int) == 0) by (nonlinear_arith);
        }
        for y in 0..h
            invariant
                colors.wf(),
                colors.palette_view() == old(colors).palette_view(),
                out@.len() == y * w,
                forall|xx: int, yy: int|
                    0 <= xx < w && 0 <= yy < y ==> step_cell_ok(
                        *self,
                        #[trigger] at(out@, w as int, xx, yy),
                        xx,
                        yy,
                        old(colors).palette_view(),
                    ),
        {
            for x in 0..w
                invariant
                    colors.wf(),
                    colors.palette_view() == old(colors).palette_view(),
                    out@.len() == y * w + x,
                    forall|xx: int, yy: int|
                        0 <= xx < w && 0 <= yy < y ==> step_cell_ok(
                            *self,
                            #[trigger] at(out@, w as int, xx, yy),
                            xx,
                            yy,
                            old(colors).palette_view(),
                        ),
                    forall|xx: int|
                        0 <= xx < x ==> step_cell_ok(
                            *self,
                            #[trigger] at(out@, w as int, xx, y as int),
                            xx,
                            y as int,
                            old(colors).palette_view(),
                        ),
            {
                let cnt = self.count_torus(x, y);
                let cur = self.get(x, y);
                let nv: Option<Color> = match cur {
                    Some(col) => if cnt == 2 || cnt == 3 {
                        Some(col)
                    } else {
                        None
                    },
                    None => if cnt == 3 {
                        Some(colors.pick())
                    } else {
                        None
                    },
                };
                let ghost pre = out@;
                out.push(nv);
                proof {
                    assert(at(out@, w as int, x as int, y as int) == nv);
                    assert(step_cell_ok(*self, nv, x as int, y as int, old(colors).palette_view()));
                    assert forall|xx: int, yy: int|
                        0 <= xx < w && (0 <= yy < y || (yy == y && 0 <= xx < x)) implies
                        step_cell_ok(
                        *self,
                        #[trigger] at(out@, w as int, xx, yy),
                        xx,
                        yy,
                        old(colors).palette_view(),
                    ) by {
                        assert(0 <= yy * w + xx && yy * w + xx < y * w + x) by (nonlinear_arith)
                            requires
                                0 <= xx < w && 0 <= yy && (yy < y || (yy == y && xx < x)),
                        ;
                        assert(at(out@, w as int, xx, yy) == at(pre, w as int, xx, yy));
                        assert(step_cell_ok(
                            *self,
                            at(pre, w as int, xx, yy),
                            xx,
                            yy,
                            old(colors).palette_view(),
                        ));
                    }
                }
            }
            proof {
                assert(y * w + w == (y + 1) * w) by (nonlinear_arith);
            }
        }
        let g = Grid { w, h, cells: out };
        proof {
            assert((h as int) * (w as int) == (w as int) * (h as int)) by (nonlinear_arith);
            assert forall|x: int, y: int| 0 <= x < w && 0 <= y < h implies step_cell_ok(
                *self,
                #[trigger] g.cell(x, y),
                x,
                y,
                old(colors).palette_view(),
            ) by {
                assert(g.cell(x, y) == at(out@, w as int, x, y));
            }
            assert forall|x: int, y: int| 0 <= x < w && 0 <= y < h implies (#[trigger] g.live(x, y)
                == torus_next_live(*self, x, y)) by {
                assert(step_cell_ok(*self, g.cell(x, y), x, y, old(colors).palette_view()));
            }
        }
        g
    }

    /// The live cells as plain values for the rendering collaborator: one
    /// entry per live coordinate with its color; the grid keeps no ages, so
    /// every entry reports age 0.
    pub fn live_cells(&self) -> (v: Vec<Cell>)
        requires
            self.wf(),
        ensures
            forall|k: int|
                0 <= k < v@.len() ==> self.live(
                    (#[trigger] v@[k]).x as int,
                    v@[k].y as int,
                ) && Some(v@[k].color) == self.cell(v@[k].x as int, v@[k].y as int) && v@[k].age
                    == 0,
            forall|x: int, y: int|
                #[trigger] self.live(x, y) ==> crate::sparse::has_coord(v@, x, y),
            crate::sparse::distinct_coords(v@),
            v@.len() == live_count(*self),
    {
        let w = self.w;
        let h = self.h;
        let mut v: Vec<Cell> = Vec::new();
        for y in 0..h
            invariant
                forall|k: int|
                    0 <= k < v@.len() ==> self.live((#[trigger] v@[k]).x as int, v@[k].y as int)
                        && Some(v@[k].color) == self.cell(v@[k].x as int, v@[k].y as int) && v@[
                        k
                    ].age == 0,
                forall|a: int, b: int|
                    0 <= b < y && #[trigger] self.live(a, b) ==> crate::sparse::has_coord(v@, a, b),
                forall|k: int| 0 <= k < v@.len() ==> (#[trigger] v@[k]).y < y,
                crate::sparse::distinct_coords(v@),
                v@.len() == live_count_upto(*self, y as int),
        {
            for x in 0..w
                invariant
                    forall|k: int|
                        0 <= k < v@.len() ==> self.live((#[trigger] v@[k]).x as int, v@[k].y as int)
                            && Some(v@[k].color) == self.cell(v@[k].x as int, v@[k].y as int) && v@[
                            k
                        ].age == 0,
                    forall|a: int, b: int|
                        0 <= b < y && #[trigger] self.live(a, b) ==> crate::sparse::has_coord(
                            v@,
                            a,
                            b,
                        ),
                    forall|a: int|
                        0 <= a < x && #[trigger] self.live(a, y as int) ==> crate::sparse::has_coord(
                            v@,
                            a,
                            y as int,
                        ),
                    forall|k: int|
                        0 <= k < v@.len() ==> (#[trigger] v@[k]).y < y || (v@[k].y == y && v@[k].x
                            < x),
                    crate::sparse::distinct_coords(v@),
                    v@.len() == live_count_upto(*self, y as int) + row_live_count(
                        *self,
                        y as int,
                        x as int,
                    ),
            {
                let ghost pre = v@;
                match self.get(x, y) {
                    Some(col) => {
                        v.push(Cell { x: x as i64, y: y as i64, color: col, age: 0 });
                    },
                    None => {},
                }
                proof {
                    if v@.len() > pre.len() {
                        assert(v@ == pre.push(v@[pre.len() as int]));
                        assert forall|a: int, b: int|
                            crate::sparse::has_coord(pre, a, b) implies crate::sparse::has_coord(
                            v@,
                            a,
                            b,
                        ) by {
                            crate::sparse::lemma_has_coord_push(pre, v@[pre.len() as int], a, b);
                        }
                        assert(crate::sparse::has_coord(v@, x as int, y as int)) by {
                            crate::sparse::lemma_has_coord_push(pre, v@[pre.len() as int], x as int, y as int);
                        }
                    }
                }
            }
        }
        v
    }
}

} // verus!
