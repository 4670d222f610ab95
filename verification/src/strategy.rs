//! The state-transition rule: from a cell and its neighbors to the cell's
//! next state.

use crate::cell::Cell;
use crate::position::Position;
use vstd::prelude::*;

verus! {

/// The number of live cells in the sequence.
pub open spec fn count_alive(cells: Seq<Cell>) -> int
    decreases cells.len(),
{
    if cells.len() == 0 {
        0
    } else {
        count_alive(cells.drop_last()) + if cells.last().is_alive {
            1int
        } else {
            0int
        }
    }
}

/// The classic birth/survival rule: a live cell survives with two or three
/// live neighbors; a dead cell is born with exactly three; every other
/// count means the cell is dead in the next generation.
pub open spec fn classic_rule(alive: bool, live_neighbors: int) -> bool {
    if alive {
        live_neighbors == 2 || live_neighbors == 3
    } else {
        live_neighbors == 3
    }
}

impl Cell {
    /// The cell's state in the next generation, given the cells of its
    /// neighborhood: same position, alive exactly when the classic rule
    /// says so for the number of live neighbors.
    pub fn next_state(&self, neighbors: Vec<Cell>) -> (next: Cell)
        ensures
            next.position == self.position,
            next.is_alive == classic_rule(self.is_alive, count_alive(neighbors@)),
    {
        let mut alive_neighbors: usize = 0;
        let mut i: usize = 0;
        while i < neighbors.len()
            invariant
                i <= neighbors@.len(),
                alive_neighbors <= i,
                alive_neighbors == count_alive(neighbors@.take(i as int)),
            decreases neighbors@.len() - i,
        {
            proof {
                assert(neighbors@.take(i + 1).drop_last() =~= neighbors@.take(i as int));
                assert(neighbors@.take(i + 1).last() == neighbors@[i as int]);
            }
            if neighbors[i].is_alive {
                alive_neighbors += 1;
            }
            i += 1;
        }
        proof {
            assert(neighbors@.take(neighbors@.len() as int) =~= neighbors@);
        }
        let survives = self.is_alive && (alive_neighbors == 2 || alive_neighbors == 3);
        let born = !self.is_alive && alive_neighbors == 3;
        if survives || born {
            Cell { position: self.position, is_alive: true }
        } else {
            Cell::new(self.position.x, self.position.y)
        }
    }
}

/// A live cell at the origin.
pub fn alive_cell() -> (c: Cell)
    ensures
        c.position.x == 0,
        c.position.y == 0,
        c.is_alive,
{
    Cell { position: Position::new(0, 0), is_alive: true }
}

/// A dead cell at the origin.
pub fn dead_cell() -> (c: Cell)
    ensures
        c.position.x == 0,
        c.position.y == 0,
        !c.is_alive,
{
    Cell { position: Position::new(0, 0), is_alive: false }
}

} // verus!
