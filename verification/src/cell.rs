//! A two-state cell for a toy cellular-automaton grid, kept alongside the
//! interpreter but sharing no state with it.

use vstd::prelude::*;

verus! {

/// One cell of the automaton: dark or lit.
#[allow(non_camel_case_types)]
#[derive(Clone, Copy, Debug, PartialEq, Eq, Structural)]
pub enum Cell {
    DEAD,
    ALIVE,
}

/// The opposite state of a cell.
pub open spec fn flipped(c: Cell) -> Cell {
    match c {
        Cell::DEAD => Cell::ALIVE,
        Cell::ALIVE => Cell::DEAD,
    }
}

impl Cell {
    /// Switch the cell to the opposite state.
    pub fn toggle(&mut self)
        ensures
            *final(self) == flipped(*old(self)),
    {
        *self = match *self {
            Cell::DEAD => Cell::ALIVE,
            Cell::ALIVE => Cell::DEAD,
        };
    }
}

} // verus!
