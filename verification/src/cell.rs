//! One live cell: a coordinate with the color it was born with and the number
//! of generations it has survived.
use vstd::prelude::*;
use crate::color::Color;

verus! {

/// Coordinates this far inside the i64 range keep every neighbor-of-neighbor
/// computation of the step free of overflow.
pub const COORD_MIN: i64 = i64::MIN + 2;

pub const COORD_MAX: i64 = i64::MAX - 2;

#[derive(Clone, Copy, PartialEq, Eq, Structural, Debug)]
pub struct Cell {
    pub x: i64,
    pub y: i64,
    pub color: Color,
    pub age: u64,
}

impl Cell {
    /// A newborn cell: age starts at 0.
    pub fn new(x: i64, y: i64, color: Color) -> (c: Cell)
        ensures
            c == (Cell { x, y, color, age: 0u64 }),
    {
        Cell { x, y, color, age: 0 }
    }

    /// The rule, seen from one live cell: it survives a generation exactly on
    /// 2 or 3 live neighbors, keeping its color and aging by one.
    pub fn update(&self, neighbors: usize) -> (r: Option<Cell>)
        requires
            self.age < u64::MAX,
        ensures
            match r {
                Some(c) => (neighbors == 2 || neighbors == 3) && c == (Cell {
                    x: self.x,
                    y: self.y,
                    color: self.color,
                    age: (self.age + 1) as u64,
                }),
                None => !(neighbors == 2 || neighbors == 3),
            },
    {
        if neighbors == 2 || neighbors == 3 {
            Some(Cell { x: self.x, y: self.y, color: self.color, age: self.age + 1 })
        } else {
            None
        }
    }
}

} // verus!
