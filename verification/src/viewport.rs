//! The scrollable viewport: a signed pixel offset over a fixed 50 by 50
//! visible-cell resolution, the two coordinate mappings between world cells
//! and screen pixels, and the drag gesture that pans the offset.
//!
//! The inverse mapping divides rounding toward negative infinity: offsets and
//! screen coordinates may be negative, and truncation toward zero would be
//! off by one exactly there.
use vstd::prelude::*;

verus! {

/// The fixed logical resolution: the window is divided into this many cells
/// along each axis.
pub const VIEW_CELLS: u32 = 50;

/// Where a world column lands on the screen.
pub open spec fn spec_world_to_screen(c: int, cell: int, offset: int) -> int {
    c * cell + offset
}

/// Which world column a screen pixel falls in: floor division, so that
/// negative pixels map to negative columns without an off-by-one.
pub open spec fn spec_screen_to_world(s: int, cell: int, offset: int) -> int {
    (s - offset) / cell
}

/// Inverse-mapping the top-left pixel of a forward-mapped cell recovers the
/// cell, for any positive cell size and any offset.
pub proof fn lemma_viewport_round_trip(c: int, cell: int, offset: int)
    requires
        cell > 0,
    ensures
        spec_screen_to_world(spec_world_to_screen(c, cell, offset), cell, offset) == c,
{
    assert((c * cell + offset) - offset == c * cell);
    vstd::arithmetic::div_mod::lemma_fundamental_div_mod_converse(c * cell, cell, c, 0);
}

/// Division of an i64 by a positive i64, rounding toward negative infinity.
pub fn floor_div(a: i64, b: i64) -> (q: i64)
    requires
        b > 0,
    ensures
        q == a as int / b as int,
{
    let bu = b as u64;
    if a >= 0 {
        let q = (a as u64) / bu;
        proof {
            let ai = a as int;
            let bi = b as int;
            vstd::arithmetic::div_mod::lemma_fundamental_div_mod(ai, bi);
            vstd::arithmetic::div_mod::lemma_mod_bound(ai, bi);
            assert((ai / bi) * bi <= ai) by (nonlinear_arith)
                requires
                    ai == bi * (ai / bi) + ai % bi && 0 <= ai % bi,
            ;
            assert(ai / bi <= ai) by (nonlinear_arith)
                requires
                    (ai / bi) * bi <= ai && bi >= 1 && ai >= 0,
            ;
        }
        q as i64
    } else {
        let m: u64 = (-(a as i128)) as u64;
        let d = (m + bu - 1) / bu;
        proof {
            let mi = m as int;
            let bi = b as int;
            let di = d as int;
            vstd::arithmetic::div_mod::lemma_fundamental_div_mod(mi + bi - 1, bi);
            vstd::arithmetic::div_mod::lemma_mod_bound(mi + bi - 1, bi);
            assert(di * bi <= mi + bi - 1 && mi + bi - 1 < di * bi + bi) by (nonlinear_arith)
                requires
                    mi + bi - 1 == bi * di + (mi + bi - 1) % bi && 0 <= (mi + bi - 1) % bi < bi,
            ;
            assert(0 <= di * bi - mi < bi);
            assert((-mi) == (-di) * bi + (di * bi - mi)) by (nonlinear_arith);
            vstd::arithmetic::div_mod::lemma_fundamental_div_mod_converse(
                -mi,
                bi,
                -di,
                di * bi - mi,
            );
            assert((-mi) / bi == -di);
            assert(di <= mi) by (nonlinear_arith)
                requires
                    di * bi <= mi + bi - 1 && bi >= 1 && mi >= 1 && di >= 0,
            ;
        }
        (-(d as i128)) as i64
    }
}

/// States of the drag gesture: idle, or dragging with the pointer position
/// that the next motion will be measured against.
#[derive(Clone, Copy, PartialEq, Eq, Structural, Debug)]
pub enum DragState {
    Idle,
    Dragging { last_x: i64, last_y: i64 },
}

/// The viewport: a pixel offset, mutated only by pan and drag input, and the
/// drag gesture state. The simulation step never touches it.
pub struct Viewport {
    pub offset_x: i64,
    pub offset_y: i64,
    pub drag: DragState,
}

impl Viewport {
    pub fn new() -> (v: Viewport)
        ensures
            v.offset_x == 0,
            v.offset_y == 0,
            v.drag is Idle,
    {
        Viewport { offset_x: 0, offset_y: 0, drag: DragState::Idle }
    }

    /// The pixel size of one cell for a window of the given size: the floor
    /// of each axis divided by the fixed resolution. A zero means the window
    /// is too small and the caller must skip mapping and rendering instead of
    /// dividing by it.
    pub fn cell_size(window_w: u32, window_h: u32) -> (r: (u32, u32))
        ensures
            r.0 == window_w as int / VIEW_CELLS as int,
            r.1 == window_h as int / VIEW_CELLS as int,
    {
        (window_w / VIEW_CELLS, window_h / VIEW_CELLS)
    }

    /// Forward mapping: the screen rectangle of a world cell, as its top-left
    /// pixel and the cell size.
    pub fn cell_rect(&self, cx: i64, cy: i64, cell_w: u32, cell_h: u32) -> (r: (i64, i64, u32, u32))
        requires
            i64::MIN <= cx * cell_w <= i64::MAX,
            i64::MIN <= cx * cell_w + self.offset_x <= i64::MAX,
            i64::MIN <= cy * cell_h <= i64::MAX,
            i64::MIN <= cy * cell_h + self.offset_y <= i64::MAX,
        ensures
            r.0 == spec_world_to_screen(cx as int, cell_w as int, self.offset_x as int),
            r.1 == spec_world_to_screen(cy as int, cell_h as int, self.offset_y as int),
            r.2 == cell_w,
            r.3 == cell_h,
    {
        (cx * (cell_w as i64) + self.offset_x, cy * (cell_h as i64) + self.offset_y, cell_w, cell_h)
    }

    /// Inverse mapping: the world cell under a screen pixel, rounding toward
    /// negative infinity on both axes.
    pub fn screen_to_world(&self, sx: i64, sy: i64, cell_w: u32, cell_h: u32) -> (r: (i64, i64))
        requires
            cell_w > 0,
            cell_h > 0,
            i64::MIN <= sx - self.offset_x <= i64::MAX,
            i64::MIN <= sy - self.offset_y <= i64::MAX,
        ensures
            r.0 == spec_screen_to_world(sx as int, cell_w as int, self.offset_x as int),
            r.1 == spec_screen_to_world(sy as int, cell_h as int, self.offset_y as int),
    {
        (floor_div(sx - self.offset_x, cell_w as i64), floor_div(sy - self.offset_y, cell_h as i64))
    }

    /// A discrete pan command: shift the offset by the given deltas. Returns
    /// false and leaves the viewport unchanged where the shift would leave
    /// i64.
    pub fn pan(&mut self, dx: i64, dy: i64) -> (ok: bool)
        ensures
            final(self).drag == old(self).drag,
            ok == (i64::MIN <= old(self).offset_x + dx <= i64::MAX && i64::MIN <= old(
                self,
            ).offset_y + dy <= i64::MAX),
            ok ==> final(self).offset_x == old(self).offset_x + dx && final(self).offset_y == old(
                self,
            ).offset_y + dy,
            !ok ==> *final(self) == *old(self),
    {
        let nx = self.offset_x as i128 + dx as i128;
        let ny = self.offset_y as i128 + dy as i128;
        if nx < i64::MIN as i128 || nx > i64::MAX as i128 || ny < i64::MIN as i128 || ny
            > i64::MAX as i128 {
            return false;
        }
        self.offset_x = nx as i64;
        self.offset_y = ny as i64;
        true
    }

    /// Place the offset directly.
    pub fn set_offset(&mut self, x: i64, y: i64)
        ensures
            final(self).offset_x == x,
            final(self).offset_y == y,
            final(self).drag == old(self).drag,
    {
        self.offset_x = x;
        self.offset_y = y;
    }

    /// Primary button pressed: the gesture starts, recording the pointer
    /// position; the offset does not move yet.
    pub fn begin_drag(&mut self, x: i64, y: i64)
        ensures
            final(self).drag == (DragState::Dragging { last_x: x, last_y: y }),
            final(self).offset_x == old(self).offset_x,
            final(self).offset_y == old(self).offset_y,
    {
        self.drag = DragState::Dragging { last_x: x, last_y: y };
    }

    /// Pointer moved. While dragging, the offset accumulates the motion since
    /// the last position and the position is updated; when idle, nothing
    /// happens. Returns false and changes nothing where the arithmetic would
    /// leave i64.
    pub fn drag_to(&mut self, x: i64, y: i64) -> (ok: bool)
        ensures
            old(self).drag is Idle ==> ok && *final(self) == *old(self),
            old(self).drag matches DragState::Dragging { last_x: lx, last_y: ly } ==> {
                &&& ok == (i64::MIN <= old(self).offset_x + (x - lx) <= i64::MAX
                    && i64::MIN <= old(self).offset_y + (y - ly) <= i64::MAX
                    && i64::MIN <= x - lx <= i64::MAX
                    && i64::MIN <= y - ly <= i64::MAX)
                &&& (ok ==> final(self).offset_x == old(self).offset_x + (x - lx)
                    && final(self).offset_y == old(self).offset_y + (y - ly)
                    && final(self).drag == (DragState::Dragging { last_x: x, last_y: y }))
                &&& (!ok ==> *final(self) == *old(self))
            },
    {
        match self.drag {
            DragState::Idle => true,
            DragState::Dragging { last_x, last_y } => {
                let dx = x as i128 - last_x as i128;
                let dy = y as i128 - last_y as i128;
                let nx = self.offset_x as i128 + dx;
                let ny = self.offset_y as i128 + dy;
                if dx < i64::MIN as i128 || dx > i64::MAX as i128 || dy < i64::MIN as i128 || dy
                    > i64::MAX as i128 || nx < i64::MIN as i128 || nx > i64::MAX as i128 || ny
                    < i64::MIN as i128 || ny > i64::MAX as i128 {
                    return false;
                }
                self.offset_x = nx as i64;
                self.offset_y = ny as i64;
                self.drag = DragState::Dragging { last_x: x, last_y: y };
                true
            },
        }
    }

    /// Primary button released: back to idle; releasing while idle is a
    /// no-op. The offset keeps its accumulated value.
    pub fn end_drag(&mut self)
        ensures
            final(self).drag is Idle,
            final(self).offset_x == old(self).offset_x,
            final(self).offset_y == old(self).offset_y,
    {
        self.drag = DragState::Idle;
    }
}

} // verus!
