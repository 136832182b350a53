//! The two-valued cell state and its transition rule.

use vstd::prelude::*;

verus! {

/// State of one grid cell. `Dead` counts as 0 and `Alive` as 1 when
/// summing live neighbors, so the rule can be applied by arithmetic
/// rather than branching on each neighbor.
#[derive(Clone, Copy, Debug, PartialEq, Eq, Structural)]
pub enum Cell {
    Dead,
    Alive,
}

impl Cell {
    /// Numeric contribution of this cell to a neighbor sum.
    pub open spec fn weight(self) -> int {
        match self {
            Cell::Dead => 0,
            Cell::Alive => 1,
        }
    }

    /// The opposite state.
    pub open spec fn flipped(self) -> Cell {
        match self {
            Cell::Dead => Cell::Alive,
            Cell::Alive => Cell::Dead,
        }
    }

    /// The state this cell takes in the next generation, given its
    /// number of live neighbors. Underpopulation (< 2) and
    /// overpopulation (> 3) kill a live cell; 2 or 3 keep it alive;
    /// exactly 3 live neighbors revive a dead cell.
    pub open spec fn transition(self, live_neighbors: int) -> Cell {
        match self {
            Cell::Alive => if live_neighbors < 2 {
                Cell::Dead
            } else if live_neighbors <= 3 {
                Cell::Alive
            } else {
                Cell::Dead
            },
            Cell::Dead => if live_neighbors == 3 {
                Cell::Alive
            } else {
                Cell::Dead
            },
        }
    }

    /// Glyph used for this cell in a rendered grid.
    pub open spec fn glyph(self) -> char {
        match self {
            Cell::Dead => '\u{25fb}',
            Cell::Alive => '\u{25fc}',
        }
    }

    /// Numeric value of the cell: 0 for `Dead`, 1 for `Alive`.
    pub fn value(&self) -> (v: u8)
        ensures
            v as int == self.weight(),
    {
        match self {
            Cell::Dead => 0,
            Cell::Alive => 1,
        }
    }

    /// Flip this cell between `Dead` and `Alive`.
    pub fn toggle(&mut self)
        ensures
            *final(self) == old(self).flipped(),
    {
        *self = match *self {
            Cell::Dead => Cell::Alive,
            Cell::Alive => Cell::Dead,
        };
    }

    /// Glyph for this cell, as a one-character string.
    pub fn glyph_str(&self) -> (s: &'static str)
        ensures
            s@.len() == 1,
            s@[0] == self.glyph(),
    {
        proof {
            reveal_strlit("\u{25fb}");
            reveal_strlit("\u{25fc}");
        }
        match self {
            Cell::Dead => "\u{25fb}",
            Cell::Alive => "\u{25fc}",
        }
    }

    /// Compute the next state of this cell from its live-neighbor count.
    pub fn next_state(&self, live_neighbors: u8) -> (n: Cell)
        ensures
            n == self.transition(live_neighbors as int),
    {
        match (*self, live_neighbors) {
            (Cell::Alive, x) if x < 2 => Cell::Dead,
            (Cell::Alive, 2) | (Cell::Alive, 3) => Cell::Alive,
            (Cell::Alive, x) if x > 3 => Cell::Dead,
            (Cell::Dead, 3) => Cell::Alive,
            (otherwise, _) => otherwise,
        }
    }
}

} // verus!
