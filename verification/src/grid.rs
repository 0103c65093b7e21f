//! The generic fixed-size 2-D cell container.
//!
//! A `Grid` owns a flat row-major buffer of `width * height` cells;
//! coordinate `(x, y)` lives at flat index `y * width + x`.  Reads and
//! writes are bounds-checked: an out-of-range read yields `None` and an
//! out-of-range write is a no-op, by design rather than as an error.

use vstd::prelude::*;

verus! {

/// A fixed-size 2-D container over a flat row-major buffer.
#[derive(Clone)]
pub struct Grid<T> {
    cells: Vec<T>,
    width: usize,
    height: usize,
}

impl<T> Grid<T> {
    /// The grid's width, for use in contracts.
    pub closed spec fn spec_width(&self) -> int {
        self.width as int
    }

    /// The grid's height, for use in contracts.
    pub closed spec fn spec_height(&self) -> int {
        self.height as int
    }

    /// The buffer always holds exactly one cell per coordinate.
    pub open spec fn wf(&self) -> bool {
        self@.len() == self.spec_width() * self.spec_height()
    }
}

impl<T> View for Grid<T> {
    type V = Seq<T>;

    /// The flat row-major sequence of cells.
    closed spec fn view(&self) -> Seq<T> {
        self.cells@
    }
}

impl<T: Copy> Grid<T> {
    /// Build a `width` by `height` grid with every cell set to
    /// `default_value`.  A zero dimension yields an empty grid.
    pub fn new_with_default(width: usize, height: usize, default_value: T) -> (g: Self)
        requires
            width * height <= usize::MAX,
        ensures
            g.wf(),
            g.spec_width() == width,
            g.spec_height() == height,
            g@.len() == width * height,
            forall|i: int| 0 <= i < g@.len() ==> g@[i] == default_value,
    {
        let n: usize = width * height;
        let mut cells: Vec<T> = Vec::new();
        let mut k: usize = 0;
        while k < n
            invariant
                k <= n,
                cells@.len() == k,
                forall|i: int| 0 <= i < k ==> cells@[i] == default_value,
            decreases n - k,
        {
            cells.push(default_value);
            k = k + 1;
        }
        Self { cells, width, height }
    }

    /// Read the cell at `(x, y)`: its value when the coordinate is in
    /// bounds, `None` otherwise.  Never panics.
    pub fn get(&self, x: usize, y: usize) -> (r: Option<T>)
        requires
            self.wf(),
        ensures
            r == (if x < self.spec_width() && y < self.spec_height() {
                Some(self@[y * self.spec_width() + x])
            } else {
                None::<T>
            }),
    {
        if x < self.width && y < self.height {
            let _n: usize = self.cells.len();
            proof {
                lemma_flat_index_in_range(
                    x as int,
                    y as int,
                    self.spec_width(),
                    self.spec_height(),
                );
            }
            Some(self.cells[y * self.width + x])
        } else {
            None
        }
    }

    /// Write `value` at `(x, y)` when the coordinate is in bounds; do
    /// nothing otherwise.  Never panics, and never changes the
    /// dimensions.
    pub fn set(&mut self, x: usize, y: usize, value: T)
        requires
            old(self).wf(),
        ensures
            final(self).wf(),
            final(self).spec_width() == old(self).spec_width(),
            final(self).spec_height() == old(self).spec_height(),
            (x < old(self).spec_width() && y < old(self).spec_height()) ==> final(self)@
                == old(self)@.update(y * old(self).spec_width() + x, value),
            !(x < old(self).spec_width() && y < old(self).spec_height()) ==> final(self)@ == old(
                self,
            )@,
    {
        if x < self.width && y < self.height {
            let _n: usize = self.cells.len();
            proof {
                lemma_flat_index_in_range(
                    x as int,
                    y as int,
                    self.spec_width(),
                    self.spec_height(),
                );
            }
            self.cells.set(y * self.width + x, value);
        }
    }

    /// A read-only view of the flat row-major cell buffer.
    pub fn cells(&self) -> (r: &[T])
        ensures
            r@ == self@,
    {
        self.cells.as_slice()
    }

    /// The grid's width.
    pub fn width(&self) -> (r: usize)
        ensures
            r == self.spec_width(),
    {
        self.width
    }

    /// The grid's height.
    pub fn height(&self) -> (r: usize)
        ensures
            r == self.spec_height(),
    {
        self.height
    }
}

impl<T: Copy> Grid<T> {
    /// Replace the whole cell buffer with a freshly computed generation
    /// of identical size, keeping the dimensions.
    pub fn replace_cells(&mut self, cells: Vec<T>)
        requires
            old(self).wf(),
            cells@.len() == old(self)@.len(),
        ensures
            final(self).wf(),
            final(self).spec_width() == old(self).spec_width(),
            final(self).spec_height() == old(self).spec_height(),
            final(self)@ == cells@,
    {
        self.cells = cells;
    }
}

/// Relies on rand::random: draws a value of `T` from the thread-local
/// generator.  Nothing is promised of the value.
pub assume_specification<T>[ rand::random::<T> ]() -> (r: T)
    where
        rand::distributions::Standard: rand::distributions::Distribution<T>,
;

impl Grid<bool> {
    /// Build a `width` by `height` grid filled at random, each cell
    /// alive with probability three in ten.
    pub fn new_random_bool(width: usize, height: usize) -> (g: Self)
        requires
            width * height <= usize::MAX,
        ensures
            g.wf(),
            g.spec_width() == width,
            g.spec_height() == height,
    {
        let n: usize = width * height;
        let mut cells: Vec<bool> = Vec::new();
        let mut k: usize = 0;
        while k < n
            invariant
                k <= n,
                cells@.len() == k,
            decreases n - k,
        {
            let draw: u64 = rand::random::<u64>();
            cells.push(draw % 10 < 3);
            k = k + 1;
        }
        Self { cells, width, height }
    }
}

/// The value a cell reads back is the one last written there.
///
/// Writing `v` at in-bounds `(x, y)` updates flat index `y * w + x` and
/// no other; a later in-bounds read at `(x2, y2)` sees `v` exactly when
/// it addresses the same coordinate, and the untouched old value
/// otherwise.  This is the flat form of what `set` followed by `get`
/// promise together, resting on the injectivity of row-major
/// addressing.
pub proof fn lemma_last_write_wins<T>(s: Seq<T>, w: int, h: int, x: int, y: int, x2: int, y2: int, v: T)
    requires
        0 <= x < w,
        0 <= y < h,
        0 <= x2 < w,
        0 <= y2 < h,
        s.len() == w * h,
    ensures
        s.update(y * w + x, v)[y2 * w + x2] == (if x2 == x && y2 == y {
            v
        } else {
            s[y2 * w + x2]
        }),
{
    lemma_flat_index_in_range(x, y, w, h);
    lemma_flat_index_in_range(x2, y2, w, h);
    assert((y * w + x == y2 * w + x2) ==> (x == x2 && y == y2)) by (nonlinear_arith)
        requires
            0 <= x < w,
            0 <= y < h,
            0 <= x2 < w,
            0 <= y2 < h,
    ;
}

/// Row-major flat addressing stays inside the buffer: with `x < w` and
/// `y < h`, index `y * w + x` lies below `w * h`.
pub proof fn lemma_flat_index_in_range(x: int, y: int, w: int, h: int)
    requires
        0 <= x < w,
        0 <= y < h,
    ensures
        0 <= y * w + x < w * h,
{
    assert(0 <= y * w + x < w * h) by (nonlinear_arith)
        requires
            0 <= x < w,
            0 <= y < h,
    ;
}

} // verus!
