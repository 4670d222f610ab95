//! Laws of the simulation, proved from the grid and rule contracts.

use crate::position::Position;
use crate::world::{is_next_generation, World};
use vstd::prelude::*;

verus! {

/// A grid seeded from `positions`: well-formed, and a cell is alive exactly
/// when its position occurs in `positions`. This is what
/// [`World::initialize`] establishes.
pub open spec fn seeded(w: World, positions: Seq<Position>) -> bool {
    &&& w.wf()
    &&& forall|q: Position|
        w.in_bounds(q.x as int, q.y as int) ==> (#[trigger] w.alive_at(q.x as int, q.y as int))
            == positions.contains(q)
}

/// Seeding a single position makes exactly that cell live: the cell at `p`
/// is alive (when `p` is in bounds), and every other in-bounds cell is dead.
pub proof fn lemma_seed_single(w: World, positions: Seq<Position>, p: Position)
    requires
        seeded(w, positions),
        positions.len() == 1,
        positions[0] == p,
    ensures
        w.in_bounds(p.x as int, p.y as int) ==> w.alive_at(p.x as int, p.y as int),
        forall|q: Position|
            w.in_bounds(q.x as int, q.y as int) && q != p ==> !(#[trigger] w.alive_at(
                q.x as int,
                q.y as int,
            )),
{
    assert(positions.contains(p));
    assert forall|q: Position| w.in_bounds(q.x as int, q.y as int) && q != p implies !(
    #[trigger] w.alive_at(q.x as int, q.y as int)) by {
        assert forall|k: int| 0 <= k < positions.len() implies positions[k] != q by {
            assert(positions[k] == p);
        }
        assert(!positions.contains(q));
    }
}

/// Seeding is idempotent: grids of the same dimensions seeded from the same
/// positions are identical, however many times `initialize` ran to produce
/// them. In particular, seeding twice with one set yields the state that
/// seeding once yields.
pub proof fn lemma_seed_deterministic(w1: World, w2: World, positions: Seq<Position>)
    requires
        seeded(w1, positions),
        seeded(w2, positions),
        w1.size == w2.size,
    ensures
        w1.cells@ == w2.cells@,
{
    let r = w1.size.rows as int;
    let c = w1.size.columns as int;
    assert forall|i: int| 0 <= i < w1.cells@.len() implies w1.cells@[i] == w2.cells@[i] by {
        lemma_grid_index_in_bounds(i, r, c);
        let q = w1.cells@[i].position;
        assert(w2.cells@[i].position == q);
        assert(w1.in_bounds(q.x as int, q.y as int));
        assert((q.x as int) * c + q.y as int == i) by (nonlinear_arith)
            requires
                q.x as int == i / c,
                q.y as int == i % c,
                0 < c,
        ;
        assert(w1.alive_at(q.x as int, q.y as int) == positions.contains(q));
        assert(w2.alive_at(q.x as int, q.y as int) == positions.contains(q));
    }
    assert(w1.cells@ =~= w2.cells@);
}

/// Underpopulation: a live cell with fewer than two live neighbors is dead
/// in the next generation.
pub proof fn lemma_underpopulation(prev: World, next: World, x: int, y: int)
    requires
        is_next_generation(next, prev),
        prev.in_bounds(x, y),
        prev.alive_at(x, y),
        prev.live_neighbor_count(x, y) <= 1,
    ensures
        !next.alive_at(x, y),
{
}

/// Overpopulation: a live cell with more than three live neighbors is dead
/// in the next generation.
pub proof fn lemma_overpopulation(prev: World, next: World, x: int, y: int)
    requires
        is_next_generation(next, prev),
        prev.in_bounds(x, y),
        prev.alive_at(x, y),
        prev.live_neighbor_count(x, y) >= 4,
    ensures
        !next.alive_at(x, y),
{
}

/// Birth: a dead cell is alive in the next generation exactly when it has
/// three live neighbors; with two or four, in particular, it stays dead.
pub proof fn lemma_birth(prev: World, next: World, x: int, y: int)
    requires
        is_next_generation(next, prev),
        prev.in_bounds(x, y),
        !prev.alive_at(x, y),
    ensures
        next.alive_at(x, y) == (prev.live_neighbor_count(x, y) == 3),
{
}

/// A row-major index within the grid decodes to an in-bounds coordinate,
/// which is the position the grid invariant stores there.
proof fn lemma_grid_index_in_bounds(i: int, r: int, c: int)
    by (nonlinear_arith)
    requires
        0 <= r,
        0 <= c,
        0 <= i < r * c,
    ensures
        0 < c,
        0 <= i / c < r,
        0 <= i % c < c,
{
}

} // verus!
