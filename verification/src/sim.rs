//! The discrete simulation type and its backward-compatible alias.
//!
//! A simulation owns exactly one grid, advances it a generation at a
//! time, and hands the current cells out as a flat 0/1 byte buffer.

use vstd::prelude::*;
use crate::conway::{life_step, step_grid};
use crate::grid::Grid;

verus! {

/// The discrete (Conway) simulation: one boolean grid, advanced in
/// place one generation per `tick`.
pub struct ConwaySimulation {
    grid: Grid<bool>,
}

impl ConwaySimulation {
    /// The owned grid, for use in contracts.
    pub closed spec fn spec_grid(&self) -> Grid<bool> {
        self.grid
    }

    /// The grid's width.
    pub open spec fn spec_width(&self) -> int {
        self.spec_grid().spec_width()
    }

    /// The grid's height.
    pub open spec fn spec_height(&self) -> int {
        self.spec_grid().spec_height()
    }

    /// The owned grid always holds one cell per coordinate.
    pub open spec fn wf(&self) -> bool {
        self.spec_grid().wf()
    }

    /// Start a simulation on a randomly filled `width` by `height`
    /// grid, roughly three cells in ten alive.
    pub fn new(width: usize, height: usize) -> (s: ConwaySimulation)
        requires
            width * height <= usize::MAX,
        ensures
            s.wf(),
            s.spec_width() == width,
            s.spec_height() == height,
    {
        ConwaySimulation { grid: Grid::new_random_bool(width, height) }
    }

    /// Start a simulation from an explicit starting grid.
    pub fn with_grid(grid: Grid<bool>) -> (s: ConwaySimulation)
        requires
            grid.wf(),
        ensures
            s.wf(),
            s.spec_width() == grid.spec_width(),
            s.spec_height() == grid.spec_height(),
            s@ == grid@,
    {
        ConwaySimulation { grid }
    }

    /// The current generation as a flat row-major buffer, live cells
    /// exported as 1 and dead cells as 0.
    pub fn cells(&self) -> (r: Vec<u8>)
        ensures
            r@.len() == self@.len(),
            forall|i: int| 0 <= i < r@.len() ==> r@[i] == (if self@[i] {
                1u8
            } else {
                0u8
            }),
    {
        let cells: &[bool] = self.grid.cells();
        let n: usize = cells.len();
        let mut r: Vec<u8> = Vec::new();
        let mut i: usize = 0;
        while i < n
            invariant
                i <= n,
                n == self@.len(),
                cells@ == self@,
                r@.len() == i,
                forall|j: int| 0 <= j < i ==> r@[j] == (if self@[j] {
                    1u8
                } else {
                    0u8
                }),
            decreases n - i,
        {
            let b: bool = cells[i];
            r.push(if b { 1 } else { 0 });
            i = i + 1;
        }
        r
    }

    /// Advance one generation: replace the grid's contents with the
    /// next generation computed wholly from the current one.  The
    /// dimensions never change.
    pub fn tick(&mut self)
        requires
            old(self).wf(),
        ensures
            final(self).wf(),
            final(self).spec_width() == old(self).spec_width(),
            final(self).spec_height() == old(self).spec_height(),
            final(self)@ == step_grid(old(self)@, old(self).spec_width(), old(self).spec_height()),
    {
        let next: Vec<bool> = life_step(&self.grid);
        self.grid.replace_cells(next);
    }
}

impl View for ConwaySimulation {
    type V = Seq<bool>;

    /// The current generation, flat row-major.
    open spec fn view(&self) -> Seq<bool> {
        self.spec_grid()@
    }
}

/// The older simulation name, kept for callers that predate the split
/// into discrete and continuous variants: a plain forwarder around
/// `ConwaySimulation` with no state of its own.
pub struct Simulation {
    inner: ConwaySimulation,
}

impl Simulation {
    /// The wrapped discrete simulation, for use in contracts.
    pub closed spec fn spec_inner(&self) -> ConwaySimulation {
        self.inner
    }

    /// The wrapped simulation's well-formedness.
    pub open spec fn wf(&self) -> bool {
        self.spec_inner().wf()
    }

    /// Start a randomly filled discrete simulation.
    pub fn new(width: usize, height: usize) -> (s: Simulation)
        requires
            width * height <= usize::MAX,
        ensures
            s.wf(),
            s.spec_inner().spec_width() == width,
            s.spec_inner().spec_height() == height,
    {
        Simulation { inner: ConwaySimulation::new(width, height) }
    }

    /// The current generation as a flat 0/1 byte buffer.
    pub fn cells(&self) -> (r: Vec<u8>)
        ensures
            r@.len() == self@.len(),
            forall|i: int| 0 <= i < r@.len() ==> r@[i] == (if self@[i] {
                1u8
            } else {
                0u8
            }),
    {
        self.inner.cells()
    }

    /// Advance one generation.
    pub fn tick(&mut self)
        requires
            old(self).wf(),
        ensures
            final(self).wf(),
            final(self).spec_inner().spec_width() == old(self).spec_inner().spec_width(),
            final(self).spec_inner().spec_height() == old(self).spec_inner().spec_height(),
            final(self)@ == step_grid(
                old(self)@,
                old(self).spec_inner().spec_width(),
                old(self).spec_inner().spec_height(),
            ),
    {
        self.inner.tick();
    }
}

impl View for Simulation {
    type V = Seq<bool>;

    /// The current generation, flat row-major.
    open spec fn view(&self) -> Seq<bool> {
        self.spec_inner()@
    }
}

} // verus!
