//! Greatest-common-divisor helper and the digit-level rounding decision.

use vstd::prelude::*;
use vstd::arithmetic::div_mod::lemma_fundamental_div_mod;
use vstd::arithmetic::div_mod::lemma_small_mod;

verus! {

/// `d` divides `n`.
pub open spec fn divides(d: nat, n: nat) -> bool {
    exists|k: nat| n == #[trigger] (d * k)
}

/// The Euclidean recursion: `gcd(0, b) == b`, `gcd(a, b) == gcd(b % a, a)`.
pub open spec fn spec_gcd(a: nat, b: nat) -> nat
    decreases a,
{
    if a == 0 {
        b
    } else {
        spec_gcd(b % a, a)
    }
}

/// The message returned when the greatest common divisor is undefined.
pub open spec fn gcd_undefined_message() -> Seq<char> {
    "GCD of 0 with 0 is ill-defined."@
}

/// Greatest common divisor by the iterative Euclidean algorithm.
///
/// `gcd(0, 0)` is ill-defined and is reported as an error; every other
/// pair of inputs yields `Ok` with the exact mathematical gcd.
pub fn gcd(a: u64, b: u64) -> (r: Result<u64, String>)
    ensures
        a == 0 && b == 0 <==> r is Err,
        r matches Ok(g) ==> g == spec_gcd(a as nat, b as nat),
        r matches Err(m) ==> m@ == gcd_undefined_message(),
{
    if a == 0 && b == 0 {
        return Err("GCD of 0 with 0 is ill-defined.".to_owned());
    }
    let mut x: u64 = a;
    let mut y: u64 = b;
    while x != 0
        invariant
            spec_gcd(x as nat, y as nat) == spec_gcd(a as nat, b as nat),
            x != 0 || y != 0,
        decreases x,
    {
        let t: u64 = y % x;
        y = x;
        x = t;
    }
    Ok(y)
}

/// What decimal rounding at a chosen precision does with a number's
/// textual representation.
pub enum RoundPlan {
    /// The representation is too short: the precision exceeds the digits
    /// available and rounding leaves the value as it is.
    KeepAsIs,
    /// Parse the truncated prefix as the result: the first dropped digit
    /// is below five.
    Truncate(String),
    /// Parse the truncated prefix and add one unit in the last kept
    /// decimal place: the first dropped digit is five or more.
    RoundUp(String),
}

/// `c` is a decimal digit.
pub open spec fn is_dec_digit(c: char) -> bool {
    48 <= c as int <= 57
}

/// The numeric value of a decimal digit.
pub open spec fn digit_value(c: char) -> int {
    c as int - 48
}

/// Decides how to round a number at `precision` decimal places, from its
/// textual representation `s` (leading digit, decimal point, then
/// fractional digits). Keeping the first `precision + 2` characters keeps
/// the leading digit, the point and `precision` fractional digits; the
/// character after them is the first dropped digit and decides the
/// direction. Returns `None` when that character is not a decimal digit,
/// so that no caller rounds on it.
pub fn round_plan(s: &str, precision: usize) -> (r: Option<RoundPlan>)
    ensures
        s@.len() < precision + 3 ==> r == Some(RoundPlan::KeepAsIs),
        s@.len() >= precision + 3 ==> {
            let c = s@[precision + 2];
            if !is_dec_digit(c) {
                r is None
            } else if digit_value(c) < 5 {
                r matches Some(RoundPlan::Truncate(p)) && p@ == s@.take(precision + 2)
            } else {
                r matches Some(RoundPlan::RoundUp(p)) && p@ == s@.take(precision + 2)
            }
        },
{
    let n: usize = s.unicode_len();
    if precision > usize::MAX - 3 || n < precision + 3 {
        return Some(RoundPlan::KeepAsIs);
    }
    let c: char = s.get_char(precision + 2);
    let v: u32 = c as u32;
    if v < 48 || v > 57 {
        return None;
    }
    let prefix: String = s.substring_char(0, precision + 2).to_owned();
    if v < 53 {
        Some(RoundPlan::Truncate(prefix))
    } else {
        Some(RoundPlan::RoundUp(prefix))
    }
}

/// A common divisor of `a` and `b` also divides `b % a`.
proof fn lemma_divides_mod(c: nat, a: nat, b: nat)
    requires
        a > 0,
        divides(c, a),
        divides(c, b),
    ensures
        divides(c, b % a),
{
    let ka = choose|k: nat| a == #[trigger] (c * k);
    let kb = choose|k: nat| b == #[trigger] (c * k);
    lemma_fundamental_div_mod(b as int, a as int);
    let q = b as int / a as int;
    let r = b % a;
    assert(c > 0) by {
        if c == 0 {
            assert(a == 0 * ka == 0);
        }
    }
    assert(c * kb - (c * ka) * q == c * (kb - ka * q)) by (nonlinear_arith);
    assert(r == c * (kb - ka * q));
    assert(kb - ka * q >= 0) by (nonlinear_arith)
        requires
            c > 0,
            c * (kb - ka * q) >= 0,
    ;
    let m = (kb - ka * q) as nat;
    assert(r == c * m);
}

/// A divisor of both `b % a` and `a` divides `b` itself.
proof fn lemma_divides_unmod(c: nat, a: nat, b: nat)
    requires
        a > 0,
        divides(c, a),
        divides(c, b % a),
    ensures
        divides(c, b),
{
    let ka = choose|k: nat| a == #[trigger] (c * k);
    let kr = choose|k: nat| b % a == #[trigger] (c * k);
    lemma_fundamental_div_mod(b as int, a as int);
    let q = b as int / a as int;
    assert(q >= 0);
    assert((c * ka) * q + c * kr == c * (ka * q + kr)) by (nonlinear_arith);
    assert(ka * q + kr >= 0) by (nonlinear_arith)
        requires
            ka >= 0 && q >= 0 && kr >= 0,
    ;
    let m = (ka * q + kr) as nat;
    assert(b == c * m);
}

/// The gcd of two numbers, not both zero, is positive and divides both.
pub proof fn lemma_gcd_divides(a: nat, b: nat)
    requires
        a > 0 || b > 0,
    ensures
        spec_gcd(a, b) > 0,
        divides(spec_gcd(a, b), a),
        divides(spec_gcd(a, b), b),
    decreases a,
{
    if a == 0 {
        assert(b == b * 1nat);
        assert(0nat == b * 0nat);
    } else {
        lemma_gcd_divides(b % a, a);
        lemma_divides_unmod(spec_gcd(b % a, a), a, b);
    }
}

/// Any common divisor of `a` and `b` divides their gcd: the gcd is the
/// greatest common divisor under divisibility.
pub proof fn lemma_gcd_greatest(a: nat, b: nat, c: nat)
    requires
        divides(c, a),
        divides(c, b),
    ensures
        divides(c, spec_gcd(a, b)),
    decreases a,
{
    if a != 0 {
        lemma_divides_mod(c, a, b);
        lemma_gcd_greatest(b % a, a, c);
    }
}

/// The gcd is symmetric in its two arguments.
pub proof fn lemma_gcd_comm(a: nat, b: nat)
    ensures
        spec_gcd(a, b) == spec_gcd(b, a),
{
    if a == 0 && b == 0 {
    } else if a == 0 {
        lemma_small_mod(0, b);
        assert(spec_gcd(b, 0) == spec_gcd(0, b));
    } else if b == 0 {
        lemma_small_mod(0, a);
        assert(spec_gcd(a, 0) == spec_gcd(0, a));
    } else if a == b {
        assert(b % a == 0);
        assert(spec_gcd(a, b) == spec_gcd(0, a));
        assert(spec_gcd(b, a) == spec_gcd(0, b));
    } else if a < b {
        lemma_small_mod(a, b);
        assert(spec_gcd(b, a) == spec_gcd(a % b, b));
    } else {
        lemma_small_mod(b, a);
        assert(spec_gcd(a, b) == spec_gcd(b % a, a));
    }
}

} // verus!
