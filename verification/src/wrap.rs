//! Wraparound (toroidal) coordinate addressing.
//!
//! Both step rules look up neighbours through this module, so the grid
//! behaves as a torus: an offset one past either edge lands on the
//! opposite edge.

use vstd::prelude::*;
use vstd::arithmetic::div_mod::{
    lemma_fundamental_div_mod, lemma_fundamental_div_mod_converse, lemma_mod_bound,
};

verus! {

/// The mathematical fold of a coordinate `c` into `[0, d)`:
/// `((c mod d) + d) mod d`, the form both automata use.
pub open spec fn wrap_spec(c: int, d: int) -> int {
    ((c % d) + d) % d
}

/// For a positive dimension the fold is exactly the Euclidean remainder,
/// so it always lands in `[0, d)`.
pub proof fn lemma_wrap_is_mod(c: int, d: int)
    requires
        d >= 1,
    ensures
        wrap_spec(c, d) == c % d,
        0 <= wrap_spec(c, d) < d,
{
    lemma_mod_bound(c, d);
    lemma_fundamental_div_mod_converse(c % d + d, d, 1, c % d);
}

/// Edge behaviour of the fold: one step past the left edge lands on the
/// right edge, one full dimension wraps to zero, and zero stays put.
pub proof fn lemma_wrap_edges(w: int)
    requires
        w >= 1,
    ensures
        wrap_spec(-1, w) == w - 1,
        wrap_spec(w, w) == 0,
        wrap_spec(0, w) == 0,
{
    lemma_wrap_is_mod(-1, w);
    lemma_wrap_is_mod(w, w);
    lemma_wrap_is_mod(0, w);
    lemma_fundamental_div_mod_converse(-1, w, -1, w - 1);
    lemma_fundamental_div_mod_converse(w, w, 1, 0);
    lemma_fundamental_div_mod_converse(0, w, 0, 0);
}

/// Fold an arbitrary signed coordinate into `[0, d)` for a dimension
/// `d >= 1`.
pub fn wrap_index(c: i128, d: usize) -> (r: usize)
    requires
        d >= 1,
    ensures
        r == wrap_spec(c as int, d as int),
        r < d,
{
    proof {
        lemma_wrap_is_mod(c as int, d as int);
    }
    let du: u128 = d as u128;
    if c >= 0 {
        let m: u128 = (c as u128) % du;
        proof {
            lemma_mod_bound(c as int, d as int);
        }
        m as usize
    } else {
        let n: u128 = ((-(c + 1)) as u128) + 1;
        let m: u128 = n % du;
        proof {
            lemma_mod_bound(n as int, d as int);
        }
        if m == 0 {
            proof {
                lemma_fundamental_div_mod(n as int, d as int);
                let q = n as int / d as int;
                assert((-q) * (d as int) + 0 == c as int) by (nonlinear_arith)
                    requires
                        n as int == (d as int) * q,
                        c as int == -(n as int),
                ;
                lemma_fundamental_div_mod_converse(c as int, d as int, -q, 0);
            }
            0
        } else {
            proof {
                lemma_fundamental_div_mod(n as int, d as int);
                let q = n as int / d as int;
                let m_ = n as int % d as int;
                assert((-q - 1) * (d as int) + (d as int - m_) == c as int) by (nonlinear_arith)
                    requires
                        n as int == (d as int) * q + m_,
                        c as int == -(n as int),
                ;
                lemma_fundamental_div_mod_converse(c as int, d as int, -q - 1, d as int - m_);
            }
            d - (m as usize)
        }
    }
}

} // verus!
