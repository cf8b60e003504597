//! The facade the application drives: one population under one of the two
//! topologies, the generation counter, the viewport, and the color source.
//! Input arrives as plain values; every operation reports through its result
//! whether it ran, and a refused operation changes nothing.
use vstd::prelude::*;
use crate::cell::{Cell, COORD_MAX, COORD_MIN};
use crate::color::{default_palette, default_palette_view, in_palette, Color, ColorSource};
use crate::dense::{dense_spawned, step_cell_ok, torus_next_live, Grid, DIM_MAX};
use crate::sparse::{ages_bounded, coords_bounded, has_coord, sparse_spawned, step_rel, CellSet};
use crate::viewport::{DragState, Viewport};

verus! {

/// How many cells a fresh random world starts with.
pub const INITIAL_CELLS: usize = 500;

/// The square the initial random population is drawn from.
pub const INITIAL_EXTENT: usize = 50;

/// The population under one of the two selectable strategies.
pub enum Population {
    /// Unbounded plane, no wrapping, cost per step proportional to the live
    /// cells.
    Sparse(CellSet),
    /// Fixed-size torus, cost per step proportional to the area.
    Dense(Grid),
}

pub struct World {
    pop: Population,
    generation: u64,
    viewport: Viewport,
    colors: ColorSource,
}

impl World {
    pub closed spec fn pop(self) -> Population {
        self.pop
    }

    pub closed spec fn gen_count(self) -> u64 {
        self.generation
    }

    pub closed spec fn vp(self) -> Viewport {
        self.viewport
    }

    pub closed spec fn palette(self) -> Seq<Color> {
        self.colors.palette_view()
    }

    /// The color source's internal invariant; its palette is never empty.
    pub closed spec fn colors_ok(self) -> bool {
        self.colors.wf()
    }

    pub open spec fn wf(self) -> bool {
        &&& match self.pop() {
            Population::Sparse(c) => c.wf(),
            Population::Dense(g) => g.wf(),
        }
        &&& self.colors_ok()
        &&& self.palette().len() > 0
    }

    /// A world as the classic screen shows it: a random sparse population of
    /// INITIAL_CELLS cells inside the visible INITIAL_EXTENT square, each
    /// with a random palette color, generation 0, viewport at the origin.
    pub fn new() -> (w: World)
        ensures
            w.wf(),
            w.gen_count() == 0,
            w.palette() == default_palette_view(),
            w.vp().offset_x == 0 && w.vp().offset_y == 0 && w.vp().drag is Idle,
            w.pop() matches Population::Sparse(c) && c@.len() == INITIAL_CELLS && (forall|k: int|
                0 <= k < c@.len() ==> 0 <= (#[trigger] c@[k]).x < INITIAL_EXTENT && 0 <= c@[k].y
                    < INITIAL_EXTENT && c@[k].age == 0 && in_palette(c@[k].color, w.palette())),
    {
        let palette = default_palette();
        let mut colors = ColorSource::randomized(palette);
        let cells = CellSet::random_filled(INITIAL_CELLS, INITIAL_EXTENT, &mut colors);
        World { pop: Population::Sparse(cells), generation: 0, viewport: Viewport::new(), colors }
    }

    /// A sparse world over a caller-supplied population, with a cycling
    /// color source so that every later birth is deterministic.
    pub fn with_population(cells: CellSet, palette: Vec<Color>) -> (w: World)
        requires
            cells.wf(),
            palette@.len() > 0,
        ensures
            w.wf(),
            w.gen_count() == 0,
            w.pop() matches Population::Sparse(c) && c == cells,
            w.palette() == palette@,
            w.vp().offset_x == 0 && w.vp().offset_y == 0 && w.vp().drag is Idle,
    {
        World {
            pop: Population::Sparse(cells),
            generation: 0,
            viewport: Viewport::new(),
            colors: ColorSource::cycling(palette),
        }
    }

    /// An empty toroidal world of the given dimensions, with a cycling color
    /// source.
    pub fn new_dense(grid_w: usize, grid_h: usize, palette: Vec<Color>) -> (w: World)
        requires
            grid_w <= DIM_MAX,
            grid_h <= DIM_MAX,
            palette@.len() > 0,
        ensures
            w.wf(),
            w.gen_count() == 0,
            w.pop() matches Population::Dense(g) && g.width() == grid_w && g.height() == grid_h
                && (forall|x: int, y: int|
                0 <= x < grid_w && 0 <= y < grid_h ==> !(#[trigger] g.live(x, y))),
            w.palette() == palette@,
            w.vp().offset_x == 0 && w.vp().offset_y == 0 && w.vp().drag is Idle,
    {
        World {
            pop: Population::Dense(Grid::new(grid_w, grid_h)),
            generation: 0,
            viewport: Viewport::new(),
            colors: ColorSource::cycling(palette),
        }
    }

    pub fn generation(&self) -> (g: u64)
        ensures
            g == self.gen_count(),
    {
        self.generation
    }

    /// Whether the next tick will run: the generation counter and, on the
    /// sparse plane, every coordinate and age must have room.
    pub open spec fn can_tick(self) -> bool {
        self.gen_count() < u64::MAX && match self.pop() {
            Population::Sparse(c) => coords_bounded(c@) && ages_bounded(c@),
            Population::Dense(_) => true,
        }
    }

    /// One tick: the population is replaced wholesale by the next
    /// generation, computed from a frozen snapshot, and the counter advances
    /// by exactly one. The viewport is never touched. Where a machine limit
    /// would be crossed the tick refuses and changes nothing.
    pub fn tick(&mut self) -> (ok: bool)
        requires
            old(self).wf(),
        ensures
            final(self).wf(),
            final(self).vp() == old(self).vp(),
            final(self).palette() == old(self).palette(),
            ok == old(self).can_tick(),
            !ok ==> *final(self) == *old(self),
            ok ==> final(self).gen_count() == old(self).gen_count() + 1,
            ok ==> match (old(self).pop(), final(self).pop()) {
                (Population::Sparse(before), Population::Sparse(after)) => step_rel(
                    before@,
                    after@,
                    old(self).palette(),
                ),
                (Population::Dense(before), Population::Dense(after)) => {
                    &&& after.width() == before.width()
                    &&& after.height() == before.height()
                    &&& forall|x: int, y: int|
                        0 <= x < before.width() && 0 <= y < before.height() ==> step_cell_ok(
                            before,
                            #[trigger] after.cell(x, y),
                            x,
                            y,
                            old(self).palette(),
                        ) && (after.live(x, y) == torus_next_live(before, x, y))
                },
                _ => false,
            },
    {
        if self.generation == u64::MAX {
            return false;
        }
        match &self.pop {
            Population::Sparse(c) => {
                if !c.step_ready() {
                    return false;
                }
                let next = c.step(&mut self.colors);
                self.pop = Population::Sparse(next);
            },
            Population::Dense(g) => {
                let next = g.step(&mut self.colors);
                self.pop = Population::Dense(next);
            },
        }
        self.generation = self.generation + 1;
        true
    }

    /// Reinitialize: an empty population of the same topology and
    /// dimensions, generation back to 0. The viewport keeps its offset.
    pub fn reset(&mut self)
        requires
            old(self).wf(),
        ensures
            final(self).wf(),
            final(self).gen_count() == 0,
            final(self).vp() == old(self).vp(),
            final(self).palette() == old(self).palette(),
            match (old(self).pop(), final(self).pop()) {
                (Population::Sparse(_), Population::Sparse(after)) => after@.len() == 0,
                (Population::Dense(before), Population::Dense(after)) => after.width()
                    == before.width() && after.height() == before.height() && (forall|
                    x: int,
                    y: int,
                |
                    0 <= x < after.width() && 0 <= y < after.height() ==> !(#[trigger] after.live(
                        x,
                        y,
                    ))),
                _ => false,
            },
    {
        match &self.pop {
            Population::Sparse(_) => {
                self.pop = Population::Sparse(CellSet::new());
            },
            Population::Dense(g) => {
                let (w, h) = (g.width_len(), g.height_len());
                self.pop = Population::Dense(Grid::new(w, h));
            },
        }
        self.generation = 0;
    }

    /// The live cells as plain values for the rendering collaborator, with
    /// the generation-independent order of the underlying store; the dense
    /// grid keeps no ages and reports 0.
    pub fn live_cells(&self) -> (v: Vec<Cell>)
        requires
            self.wf(),
        ensures
            match self.pop() {
                Population::Sparse(c) => v@ == c@,
                Population::Dense(g) => (forall|k: int|
                    0 <= k < v@.len() ==> g.live((#[trigger] v@[k]).x as int, v@[k].y as int)
                        && Some(v@[k].color) == g.cell(v@[k].x as int, v@[k].y as int) && v@[k].age
                        == 0) && (forall|x: int, y: int|
                    #[trigger] g.live(x, y) ==> has_coord(v@, x, y))
                    && crate::sparse::distinct_coords(v@) && v@.len() == crate::dense::live_count(
                    g,
                ),
            },
    {
        match &self.pop {
            Population::Sparse(c) => {
                let src = c.cells();
                let n = src.len();
                let mut v: Vec<Cell> = Vec::new();
                for i in 0..n
                    invariant
                        v@ =~= src@.subrange(0, i as int),
                {
                    v.push(src[i]);
                    proof {
                        assert(v@ =~= src@.subrange(0, i + 1 as int));
                    }
                }
                proof {
                    assert(v@ =~= src@);
                }
                v
            },
            Population::Dense(g) => g.live_cells(),
        }
    }

    /// How many cells are live.
    pub fn live_cell_count(&self) -> (n: usize)
        requires
            self.wf(),
        ensures
            match self.pop() {
                Population::Sparse(c) => n == c@.len(),
                Population::Dense(g) => n == crate::dense::live_count(g),
            },
    {
        match &self.pop {
            Population::Sparse(c) => c.len(),
            Population::Dense(g) => g.live_cells().len(),
        }
    }

    /// The spawn brush with the square shape: up to `count` newborns at
    /// uniform offsets within Chebyshev distance 5 of the target. Refused,
    /// with nothing changed, where the target sits too close to the i64
    /// limits of the sparse plane.
    pub fn spawn_square(&mut self, tx: i64, ty: i64, count: usize) -> (ok: bool)
        requires
            old(self).wf(),
        ensures
            final(self).wf(),
            final(self).vp() == old(self).vp(),
            final(self).gen_count() == old(self).gen_count(),
            final(self).palette() == old(self).palette(),
            ok == (COORD_MIN + 5 <= tx <= COORD_MAX - 5 && COORD_MIN + 5 <= ty <= COORD_MAX - 5),
            !ok ==> *final(self) == *old(self),
            ok ==> spawn_shape_ok(old(self).pop(), final(self).pop(), old(self).palette(), tx, ty, count),
    {
        if tx < COORD_MIN + 5 || tx > COORD_MAX - 5 || ty < COORD_MIN + 5 || ty > COORD_MAX - 5 {
            return false;
        }
        let mut cur = Population::Sparse(CellSet::new());
        core::mem::swap(&mut cur, &mut self.pop);
        match cur {
            Population::Sparse(mut c) => {
                let ghost c0 = c;
                c.spawn_square(tx, ty, count, &mut self.colors);
                self.pop = Population::Sparse(c);
                proof {
                    let d = choose|d: Seq<(i64, i64)>|
                        sparse_spawned(
                            c0@,
                            c@,
                            tx as int,
                            ty as int,
                            d,
                            old(self).palette(),
                        ) && d.len() == count && (forall|i: int|
                            0 <= i < d.len() ==> -5 <= (#[trigger] d[i]).0 <= 5 && -5 <= d[i].1
                                <= 5);
                    assert(old(self).pop() == Population::Sparse(c0));
                    assert(spawn_batch_ok(
                        old(self).pop(),
                        self.pop,
                        old(self).palette(),
                        tx,
                        ty,
                        d,
                    ));
                }
            },
            Population::Dense(mut g) => {
                let ghost g0 = g;
                let ghost mut drawn: Seq<(i64, i64)> = Seq::empty();
                proof {
                    assert(dense_spawned(
                        g0,
                        g,
                        tx as int,
                        ty as int,
                        drawn,
                        old(self).palette(),
                    ));
                }
                for i in 0..count
                    invariant
                        g.wf(),
                        self.viewport == old(self).vp(),
                        self.generation == old(self).gen_count(),
                        self.colors.wf(),
                        self.colors.palette_view() == old(self).palette(),
                        drawn.len() == i,
                        forall|t: int|
                            0 <= t < drawn.len() ==> -5 <= (#[trigger] drawn[t]).0 <= 5 && -5
                                <= drawn[t].1 <= 5,
                        dense_spawned(g0, g, tx as int, ty as int, drawn, old(self).palette()),
                {
                    let dx = crate::rng::random_index(11) as i64 - 5;
                    let dy = crate::rng::random_index(11) as i64 - 5;
                    let col = self.colors.pick();
                    let ghost preg = g;
                    let ghost pre_drawn = drawn;
                    proof {
                        drawn = drawn.push((dx, dy));
                    }
                    let inserted = g.insert_new(tx + dx, ty + dy, col);
                    proof {
                        crate::dense::lemma_spawn_insert_step(
                            g0,
                            preg,
                            g,
                            tx as int,
                            ty as int,
                            (dx, dy),
                            pre_drawn,
                            old(self).palette(),
                            col,
                            inserted,
                        );
                    }
                }
                self.pop = Population::Dense(g);
                proof {
                    assert(old(self).pop() == Population::Dense(g0));
                    assert(spawn_batch_ok(
                        old(self).pop(),
                        self.pop,
                        old(self).palette(),
                        tx,
                        ty,
                        drawn,
                    ));
                }
            },
        }
        true
    }

    /// The spawn brush over caller-supplied offsets (the disk shape hands
    /// its rounded offsets in here): a newborn at target + offset for every
    /// offset, insert-if-absent. Refused, with nothing changed, where the
    /// target sits too close to the i64 limits or an offset leaves the
    /// 11 by 11 square.
    pub fn spawn_offsets(&mut self, tx: i64, ty: i64, offsets: &Vec<(i64, i64)>) -> (ok: bool)
        requires
            old(self).wf(),
        ensures
            final(self).wf(),
            final(self).vp() == old(self).vp(),
            final(self).gen_count() == old(self).gen_count(),
            final(self).palette() == old(self).palette(),
            ok == (COORD_MIN + 5 <= tx <= COORD_MAX - 5 && COORD_MIN + 5 <= ty <= COORD_MAX - 5
                && (forall|k: int|
                0 <= k < offsets@.len() ==> -5 <= (#[trigger] offsets@[k]).0 <= 5 && -5
                    <= offsets@[k].1 <= 5)),
            !ok ==> *final(self) == *old(self),
            ok ==> spawn_batch_ok(
                old(self).pop(),
                final(self).pop(),
                old(self).palette(),
                tx,
                ty,
                offsets@,
            ),
    {
        if tx < COORD_MIN + 5 || tx > COORD_MAX - 5 || ty < COORD_MIN + 5 || ty > COORD_MAX - 5 {
            return false;
        }
        let n = offsets.len();
        for k in 0..n
            invariant
                forall|t: int|
                    0 <= t < k ==> -5 <= (#[trigger] offsets@[t]).0 <= 5 && -5 <= offsets@[t].1
                        <= 5,
        {
            let (dx, dy) = offsets[k];
            proof {
                assert((dx, dy) == offsets@[k as int]);
            }
            if dx < -5 || dx > 5 || dy < -5 || dy > 5 {
                return false;
            }
        }
        let mut cur = Population::Sparse(CellSet::new());
        core::mem::swap(&mut cur, &mut self.pop);
        match cur {
            Population::Sparse(mut c) => {
                let ghost c0 = c;
                c.spawn_offsets(tx, ty, offsets, &mut self.colors);
                self.pop = Population::Sparse(c);
                proof {
                    assert(old(self).pop() == Population::Sparse(c0));
                }
            },
            Population::Dense(mut g) => {
                let ghost g0 = g;
                proof {
                    assert(offsets@.subrange(0, 0) =~= Seq::<(i64, i64)>::empty());
                    assert(dense_spawned(
                        g0,
                        g,
                        tx as int,
                        ty as int,
                        offsets@.subrange(0, 0),
                        old(self).palette(),
                    ));
                }
                for k in 0..n
                    invariant
                        g.wf(),
                        self.viewport == old(self).vp(),
                        self.generation == old(self).gen_count(),
                        self.colors.wf(),
                        self.colors.palette_view() == old(self).palette(),
                        dense_spawned(
                            g0,
                            g,
                            tx as int,
                            ty as int,
                            offsets@.subrange(0, k as int),
                            old(self).palette(),
                        ),
                {
                    let (dx, dy) = offsets[k];
                    proof {
                        assert((dx, dy) == offsets@[k as int]);
                    }
                    let col = self.colors.pick();
                    let ghost preg = g;
                    let inserted = g.insert_new(tx + dx, ty + dy, col);
                    proof {
                        crate::dense::lemma_spawn_insert_step(
                            g0,
                            preg,
                            g,
                            tx as int,
                            ty as int,
                            (dx, dy),
                            offsets@.subrange(0, k as int),
                            old(self).palette(),
                            col,
                            inserted,
                        );
                        assert(offsets@.subrange(0, k as int).push((dx, dy)) =~= offsets@.subrange(
                            0,
                            k + 1 as int,
                        ));
                    }
                }
                self.pop = Population::Dense(g);
                proof {
                    assert(offsets@.subrange(0, n as int) =~= offsets@);
                    assert(old(self).pop() == Population::Dense(g0));
                    assert(spawn_batch_ok(
                        old(self).pop(),
                        self.pop,
                        old(self).palette(),
                        tx,
                        ty,
                        offsets@,
                    ));
                }
            },
        }
        true
    }

    /// Shift the viewport by a fixed pan step; the population and the
    /// counter stay as they are.
    pub fn pan(&mut self, dx: i64, dy: i64) -> (ok: bool)
        requires
            old(self).wf(),
        ensures
            final(self).wf(),
            final(self).pop() == old(self).pop(),
            final(self).gen_count() == old(self).gen_count(),
            final(self).palette() == old(self).palette(),
            final(self).vp().drag == old(self).vp().drag,
            ok == (i64::MIN <= old(self).vp().offset_x + dx <= i64::MAX
                && i64::MIN <= old(self).vp().offset_y + dy <= i64::MAX),
            ok ==> final(self).vp().offset_x == old(self).vp().offset_x + dx
                && final(self).vp().offset_y == old(self).vp().offset_y + dy,
            !ok ==> final(self).vp() == old(self).vp(),
    {
        self.viewport.pan(dx, dy)
    }

    pub fn set_offset(&mut self, x: i64, y: i64)
        requires
            old(self).wf(),
        ensures
            final(self).wf(),
            final(self).pop() == old(self).pop(),
            final(self).gen_count() == old(self).gen_count(),
            final(self).palette() == old(self).palette(),
            final(self).vp().offset_x == x && final(self).vp().offset_y == y,
            final(self).vp().drag == old(self).vp().drag,
    {
        self.viewport.set_offset(x, y);
    }

    pub fn begin_drag(&mut self, x: i64, y: i64)
        requires
            old(self).wf(),
        ensures
            final(self).wf(),
            final(self).pop() == old(self).pop(),
            final(self).gen_count() == old(self).gen_count(),
            final(self).palette() == old(self).palette(),
            final(self).vp().drag == (DragState::Dragging { last_x: x, last_y: y }),
            final(self).vp().offset_x == old(self).vp().offset_x,
            final(self).vp().offset_y == old(self).vp().offset_y,
    {
        self.viewport.begin_drag(x, y);
    }

    pub fn drag_to(&mut self, x: i64, y: i64) -> (ok: bool)
        requires
            old(self).wf(),
        ensures
            final(self).wf(),
            final(self).pop() == old(self).pop(),
            final(self).gen_count() == old(self).gen_count(),
            final(self).palette() == old(self).palette(),
            old(self).vp().drag is Idle ==> ok && final(self).vp() == old(self).vp(),
            old(self).vp().drag matches DragState::Dragging { last_x: lx, last_y: ly } ==> {
                &&& ok == (i64::MIN <= old(self).vp().offset_x + (x - lx) <= i64::MAX
                    && i64::MIN <= old(self).vp().offset_y + (y - ly) <= i64::MAX
                    && i64::MIN <= x - lx <= i64::MAX
                    && i64::MIN <= y - ly <= i64::MAX)
                &&& (ok ==> final(self).vp().offset_x == old(self).vp().offset_x + (x - lx)
                    && final(self).vp().offset_y == old(self).vp().offset_y + (y - ly)
                    && final(self).vp().drag == (DragState::Dragging { last_x: x, last_y: y }))
                &&& (!ok ==> final(self).vp() == old(self).vp())
            },
    {
        self.viewport.drag_to(x, y)
    }

    pub fn end_drag(&mut self)
        requires
            old(self).wf(),
        ensures
            final(self).wf(),
            final(self).pop() == old(self).pop(),
            final(self).gen_count() == old(self).gen_count(),
            final(self).palette() == old(self).palette(),
            final(self).vp().drag is Idle,
            final(self).vp().offset_x == old(self).vp().offset_x,
            final(self).vp().offset_y == old(self).vp().offset_y,
    {
        self.viewport.end_drag();
    }

    /// The world cell under a screen pixel, by the viewport's inverse
    /// mapping; None where a cell dimension is 0 (a window too small to
    /// render) or the pixel is out of the offset's reach.
    pub fn screen_to_world(&self, sx: i64, sy: i64, cell_w: u32, cell_h: u32) -> (r: Option<
        (i64, i64),
    >)
        ensures
            match r {
                Some(p) => cell_w > 0 && cell_h > 0 && p.0
                    == crate::viewport::spec_screen_to_world(
                    sx as int,
                    cell_w as int,
                    self.vp().offset_x as int,
                ) && p.1 == crate::viewport::spec_screen_to_world(
                    sy as int,
                    cell_h as int,
                    self.vp().offset_y as int,
                ),
                None => cell_w == 0 || cell_h == 0 || !(i64::MIN <= sx - self.vp().offset_x
                    <= i64::MAX && i64::MIN <= sy - self.vp().offset_y <= i64::MAX),
            },
    {
        if cell_w == 0 || cell_h == 0 {
            return None;
        }
        let dx = sx as i128 - self.viewport.offset_x as i128;
        let dy = sy as i128 - self.viewport.offset_y as i128;
        if dx < i64::MIN as i128 || dx > i64::MAX as i128 || dy < i64::MIN as i128 || dy
            > i64::MAX as i128 {
            return None;
        }
        Some(self.viewport.screen_to_world(sx, sy, cell_w, cell_h))
    }

    /// The screen rectangle of a world cell, by the viewport's forward
    /// mapping; None where the rectangle would leave i64.
    pub fn cell_rect(&self, cx: i64, cy: i64, cell_w: u32, cell_h: u32) -> (r: Option<
        (i64, i64, u32, u32),
    >)
        ensures
            match r {
                Some(q) => q.0 == crate::viewport::spec_world_to_screen(
                    cx as int,
                    cell_w as int,
                    self.vp().offset_x as int,
                ) && q.1 == crate::viewport::spec_world_to_screen(
                    cy as int,
                    cell_h as int,
                    self.vp().offset_y as int,
                ) && q.2 == cell_w && q.3 == cell_h,
                None => !(i64::MIN <= cx * cell_w <= i64::MAX && i64::MIN <= cx * cell_w + self.vp().offset_x
                    <= i64::MAX && i64::MIN <= cy * cell_h <= i64::MAX && i64::MIN <= cy * cell_h
                    + self.vp().offset_y <= i64::MAX),
            },
    {
        proof {
            assert(-0x8000_0000_0000_0000 * 0xffff_ffff <= (cx as int) * (cell_w as int)
                <= 0x8000_0000_0000_0000 * 0xffff_ffff) by (nonlinear_arith)
                requires
                    -0x8000_0000_0000_0000 <= cx as int <= 0x7fff_ffff_ffff_ffff,
                    0 <= cell_w as int <= 0xffff_ffff,
            ;
            assert(-0x8000_0000_0000_0000 * 0xffff_ffff <= (cy as int) * (cell_h as int)
                <= 0x8000_0000_0000_0000 * 0xffff_ffff) by (nonlinear_arith)
                requires
                    -0x8000_0000_0000_0000 <= cy as int <= 0x7fff_ffff_ffff_ffff,
                    0 <= cell_h as int <= 0xffff_ffff,
            ;
        }
        let px = cx as i128 * cell_w as i128;
        let py = cy as i128 * cell_h as i128;
        let qx = px + self.viewport.offset_x as i128;
        let qy = py + self.viewport.offset_y as i128;
        if px < i64::MIN as i128 || px > i64::MAX as i128 || py < i64::MIN as i128 || py
            > i64::MAX as i128 || qx < i64::MIN as i128 || qx > i64::MAX as i128 || qy
            < i64::MIN as i128 || qy > i64::MAX as i128 {
            return None;
        }
        Some(self.viewport.cell_rect(cx, cy, cell_w, cell_h))
    }
}

/// What a spawn batch of exactly these offsets does: on the sparse plane
/// and on the torus alike, the old population is intact with its colors and
/// ages, every newly live coordinate holds a newborn with a palette color,
/// and membership is pinned: live afterwards exactly where live before or
/// hit by target + offset.
pub open spec fn spawn_batch_ok(
    before: Population,
    after: Population,
    palette: Seq<Color>,
    tx: i64,
    ty: i64,
    offs: Seq<(i64, i64)>,
) -> bool {
    match (before, after) {
        (Population::Sparse(b), Population::Sparse(a)) => sparse_spawned(
            b@,
            a@,
            tx as int,
            ty as int,
            offs,
            palette,
        ),
        (Population::Dense(b), Population::Dense(a)) => dense_spawned(
            b,
            a,
            tx as int,
            ty as int,
            offs,
            palette,
        ),
        _ => false,
    }
}

/// What the random square brush guarantees: some sequence of `count`
/// offsets, each within the 11 by 11 square, accounts exactly for the new
/// membership. Which offsets were drawn is chance; that a batch of exactly
/// `count` in-square draws happened is not.
pub open spec fn spawn_shape_ok(
    before: Population,
    after: Population,
    palette: Seq<Color>,
    tx: i64,
    ty: i64,
    count: usize,
) -> bool {
    exists|d: Seq<(i64, i64)>|
        #[trigger] spawn_batch_ok(before, after, palette, tx, ty, d) && d.len() == count && (
        forall|i: int| 0 <= i < d.len() ==> -5 <= (#[trigger] d[i]).0 <= 5 && -5 <= d[i].1 <= 5)
}

} // verus!
