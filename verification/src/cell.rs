//! The state of a single cell.

use vstd::prelude::*;

verus! {

/// One cell of the automaton.
#[derive(Clone, Copy, Debug, PartialEq, Eq, Structural)]
pub enum Cell {
    Dead,
    Alive,
}

impl Cell {
    /// What the cell contributes to the neighbour sum of an adjacent cell:
    /// one if it is alive, nothing if it is dead.
    pub open spec fn weight(self) -> int {
        match self {
            Cell::Dead => 0,
            Cell::Alive => 1,
        }
    }

    /// Executable form of [`Cell::weight`].
    pub fn value(self) -> (w: u8)
        ensures
            w == self.weight(),
            w <= 1,
    {
        match self {
            Cell::Dead => 0,
            Cell::Alive => 1,
        }
    }

    /// Whether the cell is alive.
    pub fn is_alive(self) -> (alive: bool)
        ensures
            alive == (self == Cell::Alive),
    {
        match self {
            Cell::Dead => false,
            Cell::Alive => true,
        }
    }
}

} // verus!
