//! The coefficient rule of composite Simpson quadrature.
//!
//! Composite Simpson integration weighs each interior sample by `4` or
//! `2` in strict alternation; the 4/2 parity against the 1-based sample
//! index must match exactly, or the rule degenerates. The weight of an
//! index is an integer decision, so it is verified here; the sums and
//! scalings over function values are floating point and stay with the
//! callers.

use vstd::prelude::*;

verus! {

/// The composite-Simpson weight of the interior sample with 1-based
/// index `i`: `4` when `i` is odd, `2` when `i` is even.
pub open spec fn simpson_weight(i: nat) -> nat {
    if i % 2 == 1 {
        4
    } else {
        2
    }
}

/// Computes the interior-point coefficient of composite Simpson
/// quadrature, `2 * (1 + i % 2)`: weights alternate `4, 2, 4, 2, ...`
/// starting from the first interior point.
pub fn simpson_coefficient(i: u64) -> (c: u64)
    ensures
        c == simpson_weight(i as nat),
        i % 2 == 1 ==> c == 4,
        i % 2 == 0 ==> c == 2,
{
    2 * (1 + i % 2)
}

/// Consecutive composite-Simpson weights always differ: one is `4` and
/// the other `2`, in either order, so each pair of adjacent interior
/// samples carries total weight `6`.
pub proof fn lemma_simpson_weights_alternate(i: nat)
    ensures
        simpson_weight(i) + simpson_weight(i + 1) == 6,
        simpson_weight(i + 2) == simpson_weight(i),
{
}

} // verus!
