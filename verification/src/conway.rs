//! The discrete (Conway) automaton: the survive-on-2-or-3, born-on-3
//! neighbour rule over a boolean toroidal grid.
//!
//! Every cell of the next generation is computed from the untouched
//! previous generation — the rule is simultaneous, never sequential —
//! and neighbours are always looked up with wraparound addressing.

use vstd::prelude::*;
use crate::grid::Grid;
use crate::wrap::{wrap_index, wrap_spec};

verus! {

/// One application of the rule: a live cell survives with 2 or 3 live
/// neighbours, a dead cell is born with exactly 3, everything else dies.
pub open spec fn life_rule(alive: bool, live_neighbors: int) -> bool {
    (alive && (live_neighbors == 2 || live_neighbors == 3)) || (!alive && live_neighbors == 3)
}

/// 1 when the wrapped neighbour of `(x, y)` at offset `(dx, dy)` is
/// alive in the flat row-major generation `cells`, else 0.
pub open spec fn neighbor_bit(
    cells: Seq<bool>,
    w: int,
    h: int,
    x: int,
    y: int,
    dx: int,
    dy: int,
) -> int {
    if cells[wrap_spec(y + dy, h) * w + wrap_spec(x + dx, w)] {
        1int
    } else {
        0int
    }
}

/// The number of live cells among the 8 wrapped neighbours of `(x, y)`.
pub open spec fn live_neighbors(cells: Seq<bool>, w: int, h: int, x: int, y: int) -> int {
    neighbor_bit(cells, w, h, x, y, -1, -1) + neighbor_bit(cells, w, h, x, y, 0, -1)
        + neighbor_bit(cells, w, h, x, y, 1, -1) + neighbor_bit(cells, w, h, x, y, -1, 0)
        + neighbor_bit(cells, w, h, x, y, 1, 0) + neighbor_bit(cells, w, h, x, y, -1, 1)
        + neighbor_bit(cells, w, h, x, y, 0, 1) + neighbor_bit(cells, w, h, x, y, 1, 1)
}

/// The next-generation value of the cell at `(x, y)`.
pub open spec fn step_cell(cells: Seq<bool>, w: int, h: int, x: int, y: int) -> bool {
    life_rule(cells[y * w + x], live_neighbors(cells, w, h, x, y))
}

/// The whole next generation, flat row-major, computed cell by cell
/// from the single previous generation `cells`.
pub open spec fn step_grid(cells: Seq<bool>, w: int, h: int) -> Seq<bool> {
    Seq::new((w * h) as nat, |i: int| step_cell(cells, w, h, i % w, i / w))
}

/// Whether the wrapped neighbour of `(x, y)` at offset `(dx, dy)` is
/// alive.
fn neighbor_alive(g: &Grid<bool>, x: usize, y: usize, dx: i128, dy: i128) -> (r: bool)
    requires
        g.wf(),
        g.spec_width() >= 1,
        g.spec_height() >= 1,
        x < g.spec_width(),
        y < g.spec_height(),
        -1 <= dx <= 1,
        -1 <= dy <= 1,
    ensures
        r == (neighbor_bit(g@, g.spec_width(), g.spec_height(), x as int, y as int, dx as int, dy as int) == 1),
{
    let nx: usize = wrap_index(x as i128 + dx, g.width());
    let ny: usize = wrap_index(y as i128 + dy, g.height());
    match g.get(nx, ny) {
        Some(b) => b,
        None => false,
    }
}

/// Count the live cells among the 8 wrapped neighbours of `(x, y)`.
pub fn count_neighbors(g: &Grid<bool>, x: usize, y: usize) -> (count: usize)
    requires
        g.wf(),
        g.spec_width() >= 1,
        g.spec_height() >= 1,
        x < g.spec_width(),
        y < g.spec_height(),
    ensures
        count == live_neighbors(g@, g.spec_width(), g.spec_height(), x as int, y as int),
        count <= 8,
{
    let mut count: usize = 0;
    if neighbor_alive(g, x, y, -1, -1) {
        count = count + 1;
    }
    if neighbor_alive(g, x, y, 0, -1) {
        count = count + 1;
    }
    if neighbor_alive(g, x, y, 1, -1) {
        count = count + 1;
    }
    if neighbor_alive(g, x, y, -1, 0) {
        count = count + 1;
    }
    if neighbor_alive(g, x, y, 1, 0) {
        count = count + 1;
    }
    if neighbor_alive(g, x, y, -1, 1) {
        count = count + 1;
    }
    if neighbor_alive(g, x, y, 0, 1) {
        count = count + 1;
    }
    if neighbor_alive(g, x, y, 1, 1) {
        count = count + 1;
    }
    count
}

/// Compute the full next generation of `g` as a fresh flat buffer,
/// reading only the current generation.
#[verifier::loop_isolation(false)]
pub fn life_step(g: &Grid<bool>) -> (next: Vec<bool>)
    requires
        g.wf(),
    ensures
        next@ == step_grid(g@, g.spec_width(), g.spec_height()),
{
    let w: usize = g.width();
    let h: usize = g.height();
    let mut next: Vec<bool> = Vec::new();
    if w == 0 || h == 0 {
        proof {
            assert(next@ =~= step_grid(g@, w as int, h as int));
        }
        return next;
    }
    let mut y: usize = 0;
    while y < h
        invariant
            y <= h,
            next@.len() == y * w,
            forall|i: int|
                0 <= i < next@.len() ==> next@[i] == step_cell(g@, w as int, h as int, i % (w as int), i / (w as int)),
        decreases h - y,
    {
        let mut x: usize = 0;
        while x < w
            invariant
                x <= w,
                next@.len() == y * w + x,
                forall|i: int|
                    0 <= i < next@.len() ==> next@[i] == step_cell(g@, w as int, h as int, i % (w as int), i / (w as int)),
            decreases w - x,
        {
            let current: bool = match g.get(x, y) {
                Some(b) => b,
                None => false,
            };
            let n: usize = count_neighbors(g, x, y);
            let alive_next: bool = (current && (n == 2 || n == 3)) || (!current && n == 3);
            proof {
                crate::grid::lemma_flat_index_in_range(x as int, y as int, w as int, h as int);
                vstd::arithmetic::div_mod::lemma_fundamental_div_mod_converse(
                    y * w + x,
                    w as int,
                    y as int,
                    x as int,
                );
                assert(alive_next == step_cell(g@, w as int, h as int, x as int, y as int));
            }
            next.push(alive_next);
            x = x + 1;
        }
        proof {
            assert((y as int + 1) * (w as int) == y as int * (w as int) + w as int)
                by (nonlinear_arith);
        }
        y = y + 1;
    }
    proof {
        assert(h as int * (w as int) == w as int * (h as int)) by (nonlinear_arith);
        assert(next@ =~= step_grid(g@, w as int, h as int));
    }
    next
}

} // verus!
