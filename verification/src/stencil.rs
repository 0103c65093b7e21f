//! Verified plumbing for the 3x3 convolution step.
//!
//! The continuous rule samples the wrapped 3x3 neighbourhood of every
//! cell in row-major kernel order.  This module computes those sample
//! positions, and converts between the flat buffer the hot path works
//! on and the nested rows the alternative entry point accepts, so both
//! read exactly the same cells in exactly the same order.

use vstd::prelude::*;
use crate::grid::lemma_flat_index_in_range;
use crate::wrap::{wrap_index, wrap_spec};
use vstd::arithmetic::div_mod::{
    lemma_fundamental_div_mod, lemma_fundamental_div_mod_converse, lemma_mod_bound,
};

verus! {

/// The flat position of sample `k` (row-major over the 3x3 stencil,
/// `0 <= k < 9`) of the wrapped neighbourhood of `(x, y)`.
pub open spec fn stencil_index(w: int, h: int, x: int, y: int, k: int) -> int {
    wrap_spec(y + k / 3 - 1, h) * w + wrap_spec(x + k % 3 - 1, w)
}

/// The nine flat sample positions of the wrapped 3x3 neighbourhood of
/// `(x, y)`, in row-major kernel order.
#[verifier::loop_isolation(false)]
pub fn neighborhood_indices(width: usize, height: usize, x: usize, y: usize) -> (r: Vec<usize>)
    requires
        1 <= width,
        1 <= height,
        width * height <= usize::MAX,
        x < width,
        y < height,
    ensures
        r@.len() == 9,
        forall|k: int|
            0 <= k < 9 ==> r@[k] == stencil_index(width as int, height as int, x as int, y as int, k),
        forall|k: int| 0 <= k < 9 ==> r@[k] < width * height,
{
    let mut r: Vec<usize> = Vec::new();
    let mut k: usize = 0;
    while k < 9
        invariant
            k <= 9,
            r@.len() == k,
            forall|j: int|
                0 <= j < k ==> r@[j] == stencil_index(
                    width as int,
                    height as int,
                    x as int,
                    y as int,
                    j,
                ),
            forall|j: int| 0 <= j < k ==> r@[j] < width * height,
        decreases 9 - k,
    {
        let dx: i128 = (k % 3) as i128 - 1;
        let dy: i128 = (k / 3) as i128 - 1;
        let ix: usize = wrap_index(x as i128 + dx, width);
        let iy: usize = wrap_index(y as i128 + dy, height);
        proof {
            lemma_flat_index_in_range(ix as int, iy as int, width as int, height as int);
        }
        r.push(iy * width + ix);
        k = k + 1;
    }
    r
}

/// The per-row views of a vector of rows.
pub open spec fn row_views<T>(rows: Seq<Vec<T>>) -> Seq<Seq<T>> {
    Seq::new(rows.len(), |i: int| rows[i]@)
}

/// Every row has length `w`.
pub open spec fn rectangular<T>(rs: Seq<Seq<T>>, w: int) -> bool {
    forall|i: int| 0 <= i < rs.len() ==> (#[trigger] rs[i]).len() == w
}

/// The flat row-major buffer holding the cells of `rs`, each row of
/// width `w`.
pub open spec fn flat_of<T>(rs: Seq<Seq<T>>, w: int) -> Seq<T> {
    Seq::new((rs.len() * w) as nat, |i: int| rs[i / w][i % w])
}

/// The rows of width `w` that a flat row-major buffer of `h` rows
/// splits into.
pub open spec fn rows_of<T>(flat: Seq<T>, w: int, h: int) -> Seq<Seq<T>> {
    Seq::new(h as nat, |i: int| Seq::new(w as nat, |j: int| flat[i * w + j]))
}

/// Flatten nested rows into one row-major buffer, or report `None` for
/// an empty or ragged (non-rectangular) input.
#[verifier::loop_isolation(false)]
pub fn flatten_rows<T: Copy>(rows: &Vec<Vec<T>>) -> (r: Option<Vec<T>>)
    ensures
        ({
            let rs = row_views(rows@);
            match r {
                Some(flat) => rows@.len() >= 1 && rectangular(rs, rs[0].len() as int) && flat@
                    == flat_of(rs, rs[0].len() as int),
                None => rows@.len() == 0 || !rectangular(rs, rs[0].len() as int),
            }
        }),
{
    let h: usize = rows.len();
    if h == 0 {
        return None;
    }
    let w: usize = rows[0].len();
    let mut i: usize = 1;
    while i < h
        invariant
            1 <= i <= h,
            forall|j: int| 0 <= j < i ==> (#[trigger] rows@[j])@.len() == w,
        decreases h - i,
    {
        if rows[i].len() != w {
            proof {
                let rs = row_views(rows@);
                assert(rs[i as int] == rows@[i as int]@);
                assert(rs[0] == rows@[0]@);
                assert(!rectangular(rs, rs[0].len() as int));
            }
            return None;
        }
        i = i + 1;
    }
    let mut flat: Vec<T> = Vec::new();
    let mut y: usize = 0;
    while y < h
        invariant
            y <= h,
            flat@.len() == y * w,
            forall|idx: int|
                0 <= idx < flat@.len() ==> flat@[idx] == rows@[idx / (w as int)]@[idx % (
                w as int)],
        decreases h - y,
    {
        let mut x: usize = 0;
        while x < w
            invariant
                x <= w,
                flat@.len() == y * w + x,
                forall|idx: int|
                    0 <= idx < flat@.len() ==> flat@[idx] == rows@[idx / (w as int)]@[idx % (
                    w as int)],
            decreases w - x,
        {
            proof {
                lemma_fundamental_div_mod_converse(
                    y * w + x,
                    w as int,
                    y as int,
                    x as int,
                );
            }
            let v: T = rows[y][x];
            flat.push(v);
            x = x + 1;
        }
        proof {
            assert((y as int + 1) * (w as int) == y as int * (w as int) + w as int)
                by (nonlinear_arith);
        }
        y = y + 1;
    }
    proof {
        let rs = row_views(rows@);
        assert(h as int * (w as int) == w as int * (h as int)) by (nonlinear_arith);
        assert(rs[0] == rows@[0]@);
        assert forall|idx: int|
            0 <= idx < flat@.len() implies flat@[idx] == flat_of(rs, w as int)[idx] by {
            lemma_mod_bound(idx, w as int);
            lemma_fundamental_div_mod(idx, w as int);
            let q = idx / (w as int);
            let m = idx % (w as int);
            assert(0 <= q < h) by (nonlinear_arith)
                requires
                    idx == (w as int) * q + m,
                    0 <= m < w as int,
                    0 <= idx < (h as int) * (w as int),
            ;
            assert(rs[q] == rows@[q]@);
        };
        assert(flat@ =~= flat_of(rs, w as int));
    }
    Some(flat)
}

/// Split a flat row-major buffer of `width * height` cells into its
/// `height` rows of `width` cells each.
#[verifier::loop_isolation(false)]
pub fn split_rows<T: Copy>(flat: &Vec<T>, width: usize, height: usize) -> (r: Vec<Vec<T>>)
    requires
        width >= 1,
        flat@.len() == width * height,
    ensures
        r@.len() == height,
        row_views(r@) == rows_of(flat@, width as int, height as int),
{
    let _n: usize = flat.len();
    let mut r: Vec<Vec<T>> = Vec::new();
    let mut y: usize = 0;
    while y < height
        invariant
            y <= height,
            r@.len() == y,
            forall|i: int| 0 <= i < y ==> (#[trigger] r@[i])@.len() == width,
            forall|i: int, j: int|
                0 <= i < y && 0 <= j < width ==> (#[trigger] r@[i]@[j]) == flat@[i * (width as int)
                    + j],
        decreases height - y,
    {
        let mut row: Vec<T> = Vec::new();
        let mut x: usize = 0;
        while x < width
            invariant
                x <= width,
                row@.len() == x,
                forall|j: int| 0 <= j < x ==> row@[j] == flat@[y * (width as int) + j],
            decreases width - x,
        {
            proof {
                lemma_flat_index_in_range(x as int, y as int, width as int, height as int);
            }
            let v: T = flat[y * width + x];
            row.push(v);
            x = x + 1;
        }
        r.push(row);
        y = y + 1;
    }
    proof {
        let rows = rows_of(flat@, width as int, height as int);
        assert forall|i: int| 0 <= i < height implies row_views(r@)[i] == rows[i] by {
            assert(row_views(r@)[i] == r@[i]@);
            assert(r@[i]@ =~= rows[i]);
        };
        assert(row_views(r@) =~= rows);
    }
    r
}

/// Splitting a flat buffer into rows and flattening them again gives
/// back the same buffer: the two convolution entry points therefore
/// address exactly the same cells.
pub proof fn lemma_rows_round_trip<T>(flat: Seq<T>, w: int, h: int)
    requires
        w >= 1,
        h >= 0,
        flat.len() == w * h,
    ensures
        rows_of(flat, w, h).len() == h,
        rectangular(rows_of(flat, w, h), w),
        flat_of(rows_of(flat, w, h), w) == flat,
{
    let rs = rows_of(flat, w, h);
    assert(h * w == w * h) by (nonlinear_arith);
    assert forall|i: int| 0 <= i < flat.len() implies flat_of(rs, w)[i] == flat[i] by {
        lemma_mod_bound(i, w);
        lemma_fundamental_div_mod(i, w);
        let q = i / w;
        let m = i % w;
        assert(0 <= q < h) by (nonlinear_arith)
            requires
                i == w * q + m,
                0 <= m < w,
                0 <= i < w * h,
        ;
        assert(rs[q][m] == flat[q * w + m]);
        assert(flat_of(rs, w)[i] == rs[q][m]);
    };
    assert(flat_of(rs, w) =~= flat);
}

} // verus!
