use vstd::prelude::*;

verus! {

/// The state of one cell of the grid.
#[derive(Clone, Copy, Debug, PartialEq, Eq, Structural)]
pub enum Cell {
    Alive,
    Dead,
}

/// Pixel value painted for a live cell.
pub const ALIVE_COLOR: u32 = 0xFFFFFF;

/// Pixel value painted for a dead cell.
pub const DEAD_COLOR: u32 = 0x000000;

/// 1 for a live cell, 0 for a dead one.
pub open spec fn alive_count(c: Cell) -> int {
    if c == Cell::Alive { 1 } else { 0 }
}

/// The classic B3/S23 rule: the state a cell takes in the next generation,
/// given its current state and how many of its eight neighbours are alive.
pub open spec fn rule(c: Cell, n: int) -> Cell {
    match c {
        Cell::Alive => if n == 2 || n == 3 { Cell::Alive } else { Cell::Dead },
        Cell::Dead => if n == 3 { Cell::Alive } else { Cell::Dead },
    }
}

/// The colour a cell is painted with.
pub open spec fn color_of(c: Cell) -> u32 {
    if c == Cell::Alive { ALIVE_COLOR } else { DEAD_COLOR }
}

impl Cell {
    /// The next-generation state of this cell when `live_neighbors` of its
    /// neighbours are alive.
    pub fn next_state(self, live_neighbors: usize) -> (r: Cell)
        ensures
            r == rule(self, live_neighbors as int),
    {
        match (self, live_neighbors) {
            (Cell::Alive, x) if x < 2 => Cell::Dead,
            (Cell::Alive, 2) | (Cell::Alive, 3) => Cell::Alive,
            (Cell::Alive, x) if x > 3 => Cell::Dead,
            (Cell::Dead, 3) => Cell::Alive,
            (otherwise, _) => otherwise,
        }
    }

    /// The pixel value this cell is painted with.
    pub fn color(self) -> (r: u32)
        ensures
            r == color_of(self),
    {
        match self {
            Cell::Alive => ALIVE_COLOR,
            Cell::Dead => DEAD_COLOR,
        }
    }
}

} // verus!
