//! A cell: a grid position paired with an alive/dead state.

use crate::position::Position;
use vstd::prelude::*;

verus! {

/// An immutable value: a position and whether the cell there is alive.
/// A cell's position never changes; "mutation" always means producing a
/// new `Cell` value.
#[derive(Debug, Copy, Clone, PartialEq, Eq, Structural)]
pub struct Cell {
    pub position: Position,
    pub is_alive: bool,
}

impl Cell {
    /// A dead cell at `(x, y)`.
    pub fn new(x: usize, y: usize) -> (c: Cell)
        ensures
            c.position.x == x,
            c.position.y == y,
            !c.is_alive,
    {
        Cell { position: Position::new(x, y), is_alive: false }
    }

    /// A live cell at the same position; the receiver is unchanged.
    pub fn make_alive(&self) -> (c: Cell)
        ensures
            c.position == self.position,
            c.is_alive,
    {
        Cell { position: self.position, is_alive: true }
    }
}

} // verus!
