//! Grid coordinates and Moore-neighborhood geometry.

use vstd::prelude::*;

verus! {

/// A coordinate on the grid: `x` is the row index, `y` the column index.
#[derive(Debug, Copy, Clone, PartialEq, Eq, Structural)]
pub struct Position {
    pub x: usize,
    pub y: usize,
}

/// The dimensions of a grid.
#[derive(Debug, Copy, Clone, PartialEq, Eq, Structural)]
pub struct Size {
    pub rows: usize,
    pub columns: usize,
}

/// Whether the mathematical coordinate `(x, y)` lies on a grid of size `s`.
pub open spec fn coord_in_bounds(x: int, y: int, s: Size) -> bool {
    0 <= x < s.rows && 0 <= y < s.columns
}

/// The single position at `(x, y)` if that coordinate lies on the grid,
/// otherwise the empty sequence. Negative coordinates are simply absent:
/// there is no wraparound.
pub open spec fn bounded_candidate(x: int, y: int, s: Size) -> Seq<Position> {
    if coord_in_bounds(x, y, s) {
        seq![Position { x: x as usize, y: y as usize }]
    } else {
        Seq::empty()
    }
}

/// The Moore neighborhood of `(x, y)` clipped to the grid: the up-to-eight
/// positions offset by -1, 0 or +1 in each axis (the coordinate itself
/// excluded), in a fixed row-by-row order.
pub open spec fn moore_neighbors(x: int, y: int, s: Size) -> Seq<Position> {
    bounded_candidate(x - 1, y - 1, s) + bounded_candidate(x - 1, y, s)
        + bounded_candidate(x - 1, y + 1, s) + bounded_candidate(x, y - 1, s)
        + bounded_candidate(x, y + 1, s) + bounded_candidate(x + 1, y - 1, s)
        + bounded_candidate(x + 1, y, s) + bounded_candidate(x + 1, y + 1, s)
}

impl Position {
    pub fn new(x: usize, y: usize) -> (p: Position)
        ensures
            p.x == x,
            p.y == y,
    {
        Position { x, y }
    }

    /// The neighbors of this position on a grid of size `bounds`: exactly the
    /// in-bounds Moore neighborhood, with no wraparound at the edges.
    pub fn get_neighbors(&self, bounds: Size) -> (neighbors: Vec<Position>)
        ensures
            neighbors@ == moore_neighbors(self.x as int, self.y as int, bounds),
    {
        let x = self.x;
        let y = self.y;
        let mut neighbors: Vec<Position> = Vec::new();
        if x >= 1 && x - 1 < bounds.rows && y >= 1 && y - 1 < bounds.columns {
            neighbors.push(Position::new(x - 1, y - 1));
        }
        if x >= 1 && x - 1 < bounds.rows && y < bounds.columns {
            neighbors.push(Position::new(x - 1, y));
        }
        if x >= 1 && x - 1 < bounds.rows && bounds.columns >= 1 && y < bounds.columns - 1 {
            neighbors.push(Position::new(x - 1, y + 1));
        }
        if x < bounds.rows && y >= 1 && y - 1 < bounds.columns {
            neighbors.push(Position::new(x, y - 1));
        }
        if x < bounds.rows && bounds.columns >= 1 && y < bounds.columns - 1 {
            neighbors.push(Position::new(x, y + 1));
        }
        if bounds.rows >= 1 && x < bounds.rows - 1 && y >= 1 && y - 1 < bounds.columns {
            neighbors.push(Position::new(x + 1, y - 1));
        }
        if bounds.rows >= 1 && x < bounds.rows - 1 && y < bounds.columns {
            neighbors.push(Position::new(x + 1, y));
        }
        if bounds.rows >= 1 && x < bounds.rows - 1 && bounds.columns >= 1 && y < bounds.columns
            - 1 {
            neighbors.push(Position::new(x + 1, y + 1));
        }
        proof {
            assert(neighbors@ =~= moore_neighbors(x as int, y as int, bounds));
        }
        neighbors
    }
}

/// How large a clipped Moore neighborhood is: a fully interior position has
/// all eight neighbors; an in-bounds position on an edge has fewer; a corner
/// of a grid with at least two rows and two columns has exactly three.
pub proof fn lemma_neighbor_counts(x: int, y: int, s: Size)
    ensures
        1 <= x && x + 1 < s.rows && 1 <= y && y + 1 < s.columns ==> moore_neighbors(x, y, s).len()
            == 8,
        coord_in_bounds(x, y, s) && !(1 <= x && x + 1 < s.rows && 1 <= y && y + 1 < s.columns)
            ==> moore_neighbors(x, y, s).len() < 8,
        s.rows >= 2 && s.columns >= 2 && (x == 0 || x == s.rows - 1) && (y == 0 || y == s.columns
            - 1) ==> moore_neighbors(x, y, s).len() == 3,
{
}

/// Every position in a clipped Moore neighborhood lies on the grid.
pub proof fn lemma_moore_neighbors_in_bounds(x: int, y: int, s: Size)
    ensures
        forall|k: int|
            0 <= k < moore_neighbors(x, y, s).len() ==> coord_in_bounds(
                (#[trigger] moore_neighbors(x, y, s)[k]).x as int,
                moore_neighbors(x, y, s)[k].y as int,
                s,
            ),
{
}

} // verus!
