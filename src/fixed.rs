//! Fixed-point arithmetic: a continuous quantity `x` is stored as the integer
//! `x * SCALE` (thousandths).
use vstd::prelude::*;

verus! {

/// One whole unit in fixed-point representation.
pub const SCALE: i64 = 1000;

/// The largest magnitude of a fixed-point operand accepted by the helpers.
pub const BOUND: i64 = 1_000_000_000;

pub open spec fn bounded(x: int) -> bool {
    -BOUND <= x <= BOUND
}

/// The product of two fixed-point values, rounded down.
pub open spec fn spec_fmul(a: int, b: int) -> int {
    (a * b) / (SCALE as int)
}

pub open spec fn spec_clamp(x: int, lo: int, hi: int) -> int {
    if x < lo {
        lo
    } else if x > hi {
        hi
    } else {
        x
    }
}

/// Floor division of a possibly negative numerator by a positive divisor.
pub fn div_floor(a: i64, b: i64) -> (r: i64)
    requires
        b > 0,
        a > i64::MIN,
    ensures
        r == a / b,
{
    if a >= 0 {
        a / b
    } else {
        let n: i64 = -a;
        let q: i64 = n / b;
        let m: i64 = n % b;
        proof {
            assert(n == q * b + m) by (nonlinear_arith)
                requires
                    q == n / b,
                    m == n % b,
                    b > 0,
                    n >= 0,
            ;
        }
        if m == 0 {
            proof {
                assert(a == (-q) * b + 0) by (nonlinear_arith)
                    requires
                        n == q * b + m,
                        m == 0,
                        a == -n,
                ;
                vstd::arithmetic::div_mod::lemma_fundamental_div_mod_converse(
                    a as int,
                    b as int,
                    -q,
                    0,
                );
            }
            -q
        } else {
            proof {
                assert(a == (-q - 1) * b + (b - m)) by (nonlinear_arith)
                    requires
                        n == q * b + m,
                        a == -n,
                ;
                vstd::arithmetic::div_mod::lemma_fundamental_div_mod_converse(
                    a as int,
                    b as int,
                    -q - 1,
                    b - m,
                );
            }
            -q - 1
        }
    }
}

/// Multiplies two fixed-point values, rounding down.
pub fn fmul(a: i64, b: i64) -> (r: i64)
    requires
        bounded(a as int),
        bounded(b as int),
    ensures
        r == spec_fmul(a as int, b as int),
{
    proof {
        assert(-1_000_000_000_000_000_000 <= a * b <= 1_000_000_000_000_000_000) by (nonlinear_arith)
            requires
                bounded(a as int),
                bounded(b as int),
        ;
    }
    div_floor(a * b, SCALE)
}

pub fn clamp(x: i64, lo: i64, hi: i64) -> (r: i64)
    requires
        lo <= hi,
    ensures
        r == spec_clamp(x as int, lo as int, hi as int),
{
    if x < lo {
        lo
    } else if x > hi {
        hi
    } else {
        x
    }
}

} // verus!
