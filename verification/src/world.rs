//! The grid of cells and the simulation step that derives one generation
//! from another.

use crate::cell::Cell;
use crate::position::{bounded_candidate, coord_in_bounds, moore_neighbors, Position, Size};
use crate::strategy::{classic_rule, count_alive};
use vstd::prelude::*;

verus! {

/// A `rows x columns` grid holding exactly one cell per coordinate, stored
/// row-major: the cell for `(x, y)` sits at index `x * columns + y`.
///
/// A grid with zero rows or zero columns is a valid degenerate case: its
/// cell collection is empty and every lookup misses.
#[derive(Debug, PartialEq)]
pub struct World {
    pub size: Size,
    pub cells: Vec<Cell>,
}

/// For `0 <= x` and `0 <= y < c`, the row-major index `x * c + y` decodes
/// back to row `x` and column `y`.
proof fn lemma_row_major(x: int, y: int, c: int)
    by (nonlinear_arith)
    requires
        0 <= x,
        0 <= y < c,
    ensures
        0 <= x * c + y,
        (x * c + y) / c == x,
        (x * c + y) % c == y,
{
}

/// An in-bounds coordinate's row-major index lies within the grid.
proof fn lemma_row_major_bound(x: int, y: int, r: int, c: int)
    by (nonlinear_arith)
    requires
        0 <= x < r,
        0 <= y < c,
    ensures
        0 <= x * c + y < r * c,
{
}

/// `next` is the generation that follows `prev`: a well-formed grid of the
/// same dimensions in which every cell's state is what the classic rule
/// yields for that cell's prior state and live-neighbor count in `prev`.
pub open spec fn is_next_generation(next: World, prev: World) -> bool {
    &&& next.wf()
    &&& next.size == prev.size
    &&& forall|x: int, y: int|
        prev.in_bounds(x, y) ==> (#[trigger] next.alive_at(x, y)) == classic_rule(
            prev.alive_at(x, y),
            prev.live_neighbor_count(x, y),
        )
}

impl World {
    /// Well-formedness: one cell per coordinate, in row-major order, with
    /// no duplicates and no gaps.
    pub open spec fn wf(self) -> bool {
        &&& self.cells@.len() == self.size.rows * self.size.columns
        &&& forall|i: int|
            0 <= i < self.cells@.len() ==> (#[trigger] self.cells@[i]).position.x == i / (
            self.size.columns as int) && self.cells@[i].position.y == i % (
            self.size.columns as int)
    }

    /// Whether `(x, y)` lies on this grid.
    pub open spec fn in_bounds(self, x: int, y: int) -> bool {
        coord_in_bounds(x, y, self.size)
    }

    /// Whether the cell at the in-bounds coordinate `(x, y)` is alive.
    pub open spec fn alive_at(self, x: int, y: int) -> bool {
        self.cells@[x * self.size.columns + y].is_alive
    }

    /// 1 if `(x, y)` is an in-bounds live cell, else 0.
    pub open spec fn live_indicator(self, x: int, y: int) -> int {
        if self.in_bounds(x, y) && self.alive_at(x, y) {
            1
        } else {
            0
        }
    }

    /// The number of live cells among the Moore neighbors of `(x, y)`.
    pub open spec fn live_neighbor_count(self, x: int, y: int) -> int {
        self.live_indicator(x - 1, y - 1) + self.live_indicator(x - 1, y) + self.live_indicator(
            x - 1,
            y + 1,
        ) + self.live_indicator(x, y - 1) + self.live_indicator(x, y + 1) + self.live_indicator(
            x + 1,
            y - 1,
        ) + self.live_indicator(x + 1, y) + self.live_indicator(x + 1, y + 1)
    }

    /// A grid of the given dimensions in which every cell is dead.
    pub fn new(rows: usize, columns: usize) -> (world: World)
        requires
            rows * columns <= usize::MAX,
        ensures
            world.wf(),
            world.size.rows == rows,
            world.size.columns == columns,
            forall|x: int, y: int| world.in_bounds(x, y) ==> !(#[trigger] world.alive_at(x, y)),
    {
        let mut cells: Vec<Cell> = Vec::new();
        let mut x: usize = 0;
        while x < rows
            invariant
                x <= rows,
                cells@.len() == x * columns,
                forall|i: int|
                    0 <= i < cells@.len() ==> (#[trigger] cells@[i]).position.x == i / (
                    columns as int) && cells@[i].position.y == i % (columns as int)
                        && !cells@[i].is_alive,
            decreases rows - x,
        {
            let mut y: usize = 0;
            while y < columns
                invariant
                    x < rows,
                    y <= columns,
                    cells@.len() == x * columns + y,
                    forall|i: int|
                        0 <= i < cells@.len() ==> (#[trigger] cells@[i]).position.x == i / (
                        columns as int) && cells@[i].position.y == i % (columns as int)
                            && !cells@[i].is_alive,
                decreases columns - y,
            {
                proof {
                    lemma_row_major(x as int, y as int, columns as int);
                }
                cells.push(Cell::new(x, y));
                y += 1;
            }
            proof {
                assert((x + 1) * columns == x * columns + columns) by (nonlinear_arith);
            }
            x += 1;
        }
        let world = World { size: Size { rows, columns }, cells };
        proof {
            assert forall|px: int, py: int| world.in_bounds(px, py) implies !(
            #[trigger] world.alive_at(px, py)) by {
                lemma_row_major_bound(px, py, rows as int, columns as int);
            }
        }
        world
    }

    /// Rebuild the whole cell collection: a cell is alive exactly when its
    /// position is among `alive_cell_positions`, otherwise dead. This is a
    /// full replace, never an incremental toggle; an out-of-bounds seed
    /// position matches no cell and so has no effect.
    pub fn initialize(&mut self, alive_cell_positions: Vec<Position>)
        requires
            old(self).wf(),
        ensures
            final(self).wf(),
            final(self).size == old(self).size,
            forall|q: Position|
                final(self).in_bounds(q.x as int, q.y as int) ==> (#[trigger] final(self).alive_at(
                    q.x as int,
                    q.y as int,
                )) == alive_cell_positions@.contains(q),
    {
        let mut cells: Vec<Cell> = Vec::new();
        let mut i: usize = 0;
        while i < self.cells.len()
            invariant
                self == old(self),
                self.wf(),
                i <= self.cells@.len(),
                cells@.len() == i,
                forall|k: int|
                    0 <= k < cells@.len() ==> (#[trigger] cells@[k]).position
                        == self.cells@[k].position && cells@[k].is_alive
                        == alive_cell_positions@.contains(self.cells@[k].position),
            decreases self.cells@.len() - i,
        {
            let cell = self.cells[i];
            let fresh = Cell::new(cell.position.x, cell.position.y);
            if contains_position(&alive_cell_positions, cell.position) {
                cells.push(fresh.make_alive());
            } else {
                cells.push(fresh);
            }
            i += 1;
        }
        self.cells = cells;
        proof {
            let rows = self.size.rows as int;
            let columns = self.size.columns as int;
            assert forall|q: Position|
                self.in_bounds(q.x as int, q.y as int) implies (#[trigger] self.alive_at(
                q.x as int,
                q.y as int,
            )) == alive_cell_positions@.contains(q) by {
                lemma_row_major(q.x as int, q.y as int, columns);
                lemma_row_major_bound(q.x as int, q.y as int, rows, columns);
            }
        }
    }

    /// The cell at `position`, or nothing when `position` lies outside the
    /// grid; an out-of-range lookup is never a fault.
    pub fn get_cell(&self, position: Position) -> (cell: Option<Cell>)
        requires
            self.wf(),
        ensures
            match cell {
                Some(c) => self.in_bounds(position.x as int, position.y as int) && c.position
                    == position && c.is_alive == self.alive_at(
                    position.x as int,
                    position.y as int,
                ),
                None => !self.in_bounds(position.x as int, position.y as int),
            },
    {
        if position.x < self.size.rows && position.y < self.size.columns {
            proof {
                assert(self.cells.len() <= usize::MAX);
                lemma_row_major(position.x as int, position.y as int, self.size.columns as int);
                lemma_row_major_bound(
                    position.x as int,
                    position.y as int,
                    self.size.rows as int,
                    self.size.columns as int,
                );
            }
            let index = position.x * self.size.columns + position.y;
            Some(self.cells[index])
        } else {
            None
        }
    }

    /// The next generation: a brand-new grid of the same dimensions in which
    /// every cell's state follows from the classic rule applied to its
    /// live-neighbor count in the current grid. All neighbor reads target
    /// the receiver, which is left unchanged.
    pub fn next_gen(&self) -> (next: World)
        requires
            self.wf(),
        ensures
            is_next_generation(next, *self),
    {
        let rows = self.size.rows;
        let columns = self.size.columns;
        proof {
            assert(self.cells.len() <= usize::MAX);
        }
        let mut cells: Vec<Cell> = Vec::new();
        let mut x: usize = 0;
        while x < rows
            invariant
                self.wf(),
                rows == self.size.rows,
                columns == self.size.columns,
                rows * columns <= usize::MAX,
                x <= rows,
                cells@.len() == x * columns,
                forall|i: int|
                    0 <= i < cells@.len() ==> (#[trigger] cells@[i]).position.x == i / (
                    columns as int) && cells@[i].position.y == i % (columns as int)
                        && cells@[i].is_alive == classic_rule(
                        self.alive_at(i / (columns as int), i % (columns as int)),
                        self.live_neighbor_count(i / (columns as int), i % (columns as int)),
                    ),
            decreases rows - x,
        {
            let mut y: usize = 0;
            while y < columns
                invariant
                    self.wf(),
                    rows == self.size.rows,
                    columns == self.size.columns,
                    rows * columns <= usize::MAX,
                    x < rows,
                    y <= columns,
                    cells@.len() == x * columns + y,
                    forall|i: int|
                        0 <= i < cells@.len() ==> (#[trigger] cells@[i]).position.x == i / (
                        columns as int) && cells@[i].position.y == i % (columns as int)
                            && cells@[i].is_alive == classic_rule(
                            self.alive_at(i / (columns as int), i % (columns as int)),
                            self.live_neighbor_count(i / (columns as int), i % (columns as int)),
                        ),
                decreases columns - y,
            {
                proof {
                    lemma_row_major(x as int, y as int, columns as int);
                    lemma_row_major_bound(x as int, y as int, rows as int, columns as int);
                }
                let index = x * columns + y;
                let cell = self.cells[index];
                let neighbor_positions = cell.position.get_neighbors(self.size);
                proof {
                    crate::position::lemma_moore_neighbors_in_bounds(
                        x as int,
                        y as int,
                        self.size,
                    );
                }
                let mut neighbors: Vec<Cell> = Vec::new();
                let mut j: usize = 0;
                while j < neighbor_positions.len()
                    invariant
                        self.wf(),
                        neighbor_positions@ == moore_neighbors(x as int, y as int, self.size),
                        forall|k: int|
                            0 <= k < neighbor_positions@.len() ==> coord_in_bounds(
                                (#[trigger] neighbor_positions@[k]).x as int,
                                neighbor_positions@[k].y as int,
                                self.size,
                            ),
                        j <= neighbor_positions@.len(),
                        neighbors@.len() == j,
                        forall|k: int|
                            0 <= k < neighbors@.len() ==> (#[trigger] neighbors@[k]).is_alive
                                == self.alive_at(
                                neighbor_positions@[k].x as int,
                                neighbor_positions@[k].y as int,
                            ),
                    decreases neighbor_positions@.len() - j,
                {
                    let q = neighbor_positions[j];
                    match self.get_cell(q) {
                        Some(c) => {
                            neighbors.push(c);
                        },
                        None => {},
                    }
                    j += 1;
                }
                proof {
                    lemma_count_alive_of_gathered(*self, neighbor_positions@, neighbors@);
                    lemma_live_neighbor_count(*self, x as int, y as int);
                }
                let next_cell = cell.next_state(neighbors);
                cells.push(next_cell);
                y += 1;
            }
            proof {
                assert((x + 1) * columns == x * columns + columns) by (nonlinear_arith);
            }
            x += 1;
        }
        let next = World { size: self.size, cells };
        proof {
            assert forall|px: int, py: int| self.in_bounds(px, py) implies (
            #[trigger] next.alive_at(px, py)) == classic_rule(
                self.alive_at(px, py),
                self.live_neighbor_count(px, py),
            ) by {
                lemma_row_major(px, py, columns as int);
                lemma_row_major_bound(px, py, rows as int, columns as int);
            }
        }
        next
    }
}

/// Whether `position` occurs in `positions`.
fn contains_position(positions: &Vec<Position>, position: Position) -> (found: bool)
    ensures
        found == positions@.contains(position),
{
    let mut i: usize = 0;
    while i < positions.len()
        invariant
            i <= positions@.len(),
            forall|k: int| 0 <= k < i ==> positions@[k] != position,
        decreases positions@.len() - i,
    {
        if positions[i] == position {
            return true;
        }
        i += 1;
    }
    false
}

/// The number of live cells of `w` at the positions in `ps` (out-of-bounds
/// positions count as dead).
pub open spec fn count_alive_at(w: World, ps: Seq<Position>) -> int
    decreases ps.len(),
{
    if ps.len() == 0 {
        0
    } else {
        count_alive_at(w, ps.drop_last()) + w.live_indicator(
            ps.last().x as int,
            ps.last().y as int,
        )
    }
}

/// Counting live cells among cells gathered from in-bounds positions agrees
/// with counting live positions.
proof fn lemma_count_alive_of_gathered(w: World, ps: Seq<Position>, cs: Seq<Cell>)
    requires
        cs.len() == ps.len(),
        forall|k: int|
            0 <= k < ps.len() ==> coord_in_bounds(
                (#[trigger] ps[k]).x as int,
                ps[k].y as int,
                w.size,
            ),
        forall|k: int|
            0 <= k < ps.len() ==> (#[trigger] cs[k]).is_alive == w.alive_at(
                ps[k].x as int,
                ps[k].y as int,
            ),
    ensures
        count_alive(cs) == count_alive_at(w, ps),
    decreases ps.len(),
{
    if ps.len() > 0 {
        lemma_count_alive_of_gathered(w, ps.drop_last(), cs.drop_last());
    }
}

/// Counting live positions distributes over concatenation.
proof fn lemma_count_alive_at_concat(w: World, a: Seq<Position>, b: Seq<Position>)
    ensures
        count_alive_at(w, a + b) == count_alive_at(w, a) + count_alive_at(w, b),
    decreases b.len(),
{
    if b.len() == 0 {
        assert(a + b =~= a);
    } else {
        lemma_count_alive_at_concat(w, a, b.drop_last());
        assert((a + b).drop_last() =~= a + b.drop_last());
        assert((a + b).last() == b.last());
    }
}

/// A clipped candidate contributes exactly its live indicator.
proof fn lemma_count_alive_at_candidate(w: World, x: int, y: int)
    ensures
        count_alive_at(w, bounded_candidate(x, y, w.size)) == w.live_indicator(x, y),
{
    if coord_in_bounds(x, y, w.size) {
        let p = Position { x: x as usize, y: y as usize };
        assert(bounded_candidate(x, y, w.size) =~= seq![p]);
        assert(seq![p].last() == p);
        assert(seq![p].drop_last() =~= Seq::<Position>::empty());
        assert(count_alive_at(w, Seq::<Position>::empty()) == 0);
        assert(count_alive_at(w, seq![p]) == w.live_indicator(p.x as int, p.y as int));
    } else {
        assert(count_alive_at(w, Seq::<Position>::empty()) == 0);
    }
}

/// Counting live positions over a clipped Moore neighborhood yields the
/// live-neighbor count.
proof fn lemma_live_neighbor_count(w: World, x: int, y: int)
    ensures
        count_alive_at(w, moore_neighbors(x, y, w.size)) == w.live_neighbor_count(x, y),
{
    let s = w.size;
    let c1 = bounded_candidate(x - 1, y - 1, s);
    let c2 = bounded_candidate(x - 1, y, s);
    let c3 = bounded_candidate(x - 1, y + 1, s);
    let c4 = bounded_candidate(x, y - 1, s);
    let c5 = bounded_candidate(x, y + 1, s);
    let c6 = bounded_candidate(x + 1, y - 1, s);
    let c7 = bounded_candidate(x + 1, y, s);
    let c8 = bounded_candidate(x + 1, y + 1, s);
    lemma_count_alive_at_concat(w, c1 + c2 + c3 + c4 + c5 + c6 + c7, c8);
    lemma_count_alive_at_concat(w, c1 + c2 + c3 + c4 + c5 + c6, c7);
    lemma_count_alive_at_concat(w, c1 + c2 + c3 + c4 + c5, c6);
    lemma_count_alive_at_concat(w, c1 + c2 + c3 + c4, c5);
    lemma_count_alive_at_concat(w, c1 + c2 + c3, c4);
    lemma_count_alive_at_concat(w, c1 + c2, c3);
    lemma_count_alive_at_concat(w, c1, c2);
    lemma_count_alive_at_candidate(w, x - 1, y - 1);
    lemma_count_alive_at_candidate(w, x - 1, y);
    lemma_count_alive_at_candidate(w, x - 1, y + 1);
    lemma_count_alive_at_candidate(w, x, y - 1);
    lemma_count_alive_at_candidate(w, x, y + 1);
    lemma_count_alive_at_candidate(w, x + 1, y - 1);
    lemma_count_alive_at_candidate(w, x + 1, y);
    lemma_count_alive_at_candidate(w, x + 1, y + 1);
}

} // verus!
