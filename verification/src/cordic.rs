//! Quadrant sign correction for the CORDIC rotation algorithm.
//!
//! The rotation loop itself works on a reduced angle in `[0, pi/2]`; its
//! result must then be reflected back into the quadrant of the original
//! angle. Which coordinates flip sign depends only on the signed quadrant
//! index `floor(theta / (pi/2))`, an integer, so that rule is verified
//! here.

use vstd::prelude::*;

verus! {

/// Rust's truncating remainder by four: the result takes the sign of the
/// dividend and lies strictly between `-4` and `4`.
pub open spec fn rem_four(q: int) -> int {
    if q >= 0 {
        q % 4
    } else {
        -((-q) % 4)
    }
}

/// The sign correction owed to quadrant index `q`, as
/// `Some((negate_cos, negate_sin))`. `None` is the defensive fallback of
/// the correction table; no remainder by four reaches it.
pub open spec fn sign_correction_spec(q: int) -> Option<(bool, bool)> {
    let m = rem_four(q);
    if m == 0 {
        Some((false, false))
    } else if m == 1 {
        Some((true, false))
    } else if m == 2 {
        Some((false, true))
    } else if m == 3 {
        Some((true, true))
    } else if m == -1 {
        Some((false, true))
    } else if m == -2 {
        Some((true, true))
    } else if m == -3 {
        Some((true, false))
    } else {
        None
    }
}

/// Maps the signed quadrant index of an angle to the pair of sign flips
/// `(negate_cos, negate_sin)` that move a rotation result computed on the
/// reduced angle back to the original quadrant. `None` stands for the
/// defensive fallback of the table, which `lemma_sign_correction_total`
/// shows is never returned.
pub fn cordic_sign_correction(quadrant: i64) -> (r: Option<(bool, bool)>)
    ensures
        r == sign_correction_spec(quadrant as int),
        r is Some,
{
    proof {
        lemma_sign_correction_total(quadrant as int);
    }
    let m: i64 = if quadrant >= 0 {
        (((quadrant as u64) % 4) as i64)
    } else if quadrant == i64::MIN {
        0
    } else {
        -((((-quadrant) as u64) % 4) as i64)
    };
    match m {
        0 => Some((false, false)),
        1 => Some((true, false)),
        2 => Some((false, true)),
        3 => Some((true, true)),
        -1 => Some((false, true)),
        -2 => Some((true, true)),
        -3 => Some((true, false)),
        _ => None,
    }
}

/// Every quadrant index has a sign correction: the remainder by four lies
/// strictly between `-4` and `4`, so the fallback arm of the correction
/// table is unreachable.
pub proof fn lemma_sign_correction_total(q: int)
    ensures
        sign_correction_spec(q) is Some,
{
    assert(-4 < rem_four(q) < 4);
}

} // verus!
