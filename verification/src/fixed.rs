use vstd::prelude::*;

verus! {

use vstd::arithmetic::div_mod::lemma_div_is_ordered;
use vstd::arithmetic::div_mod::lemma_div_by_multiple;
use vstd::arithmetic::div_mod::lemma_div_pos_is_pos;
use vstd::arithmetic::div_mod::lemma_div_nonincreasing;

/// Truncating signed division: the quotient of `a / b` rounded toward
/// zero, as machine division does it. Defined for a positive divisor.
pub open spec fn tdiv(a: int, b: int) -> int
    recommends
        b > 0,
{
    if a >= 0 {
        a / b
    } else {
        -((-a) / b)
    }
}

/// A bound `|a| <= c * b` on the dividend gives the bound `|q| <= c` on
/// the truncated quotient.
pub proof fn lemma_tdiv_bound(a: int, b: int, c: int)
    requires
        b > 0,
        c >= 0,
        -(c * b) <= a <= c * b,
    ensures
        -c <= tdiv(a, b) <= c,
{
    lemma_div_by_multiple(c, b);
    if a >= 0 {
        lemma_div_is_ordered(a, c * b, b);
        lemma_div_pos_is_pos(a, b);
    } else {
        lemma_div_is_ordered(-a, c * b, b);
        lemma_div_pos_is_pos(-a, b);
    }
}

/// Divides `a` by the positive scale `b`, rounding toward zero.
pub fn div_scale(a: i64, b: i64) -> (q: i64)
    requires
        b > 0,
        a > i64::MIN,
    ensures
        q as int == tdiv(a as int, b as int),
        -(i64::MAX as int) <= tdiv(a as int, b as int) <= i64::MAX as int,
{
    if a >= 0 {
        let m: u64 = a as u64;
        let d: u64 = b as u64;
        let q0: u64 = m / d;
        proof {
            lemma_div_nonincreasing(m as int, d as int);
        }
        q0 as i64
    } else {
        let m: u64 = (-a) as u64;
        let d: u64 = b as u64;
        let q0: u64 = m / d;
        proof {
            lemma_div_nonincreasing(m as int, d as int);
        }
        -(q0 as i64)
    }
}

} // verus!
