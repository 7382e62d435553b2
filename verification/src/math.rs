//! Integer arithmetic shared by the geometry: clamping, division that rounds
//! toward zero, and the integer square root.

use vstd::prelude::*;

verus! {

/// The distance of `v` from zero.
pub open spec fn magnitude(v: int) -> int {
    if v < 0 {
        -v
    } else {
        v
    }
}

/// `v` held to the interval from `lo` to `hi`.
pub open spec fn clamp(v: int, lo: int, hi: int) -> int
    recommends
        lo <= hi,
{
    if v < lo {
        lo
    } else if v > hi {
        hi
    } else {
        v
    }
}

/// The quotient `n / d` rounded toward zero.
pub open spec fn quot(n: int, d: int) -> int
    recommends
        d != 0,
{
    if (n < 0) == (d < 0) {
        magnitude(n) / magnitude(d)
    } else {
        -(magnitude(n) / magnitude(d))
    }
}

/// Whether `r` is the integer square root of `n`: the largest number whose
/// square does not exceed `n`.
pub open spec fn is_sqrt_floor(n: nat, r: nat) -> bool {
    r * r <= n < (r + 1) * (r + 1)
}

/// The integer square root of `n`.
pub open spec fn sqrt_floor(n: nat) -> nat {
    choose|r: nat| is_sqrt_floor(n, r)
}

/// A quotient is never farther from zero than its numerator, and has the sign
/// of the exact ratio or is zero.
pub proof fn lemma_quot_bounds(n: int, d: int)
    requires
        d != 0,
    ensures
        magnitude(quot(n, d)) <= magnitude(n),
        magnitude(quot(n, d)) == magnitude(n) / magnitude(d),
        (n < 0) == (d < 0) ==> quot(n, d) >= 0,
        (n < 0) != (d < 0) ==> quot(n, d) <= 0,
{
    let a = magnitude(n);
    let b = magnitude(d);
    assert(0 <= a / b <= a) by (nonlinear_arith)
        requires
            a >= 0,
            b > 0,
    ;
}

/// The quotient is the one number `q` with the sign of the exact ratio and
/// `|q| * |d| <= |n| < (|q| + 1) * |d|`.
pub proof fn lemma_quot_unique(n: int, d: int, q: int)
    requires
        d != 0,
        magnitude(q) * magnitude(d) <= magnitude(n) < (magnitude(q) + 1) * magnitude(d),
        q != 0 ==> ((q < 0) <==> ((n < 0) != (d < 0))),
    ensures
        quot(n, d) == q,
{
    let a = magnitude(n);
    let b = magnitude(d);
    let m = magnitude(q);
    assert(a / b == m) by (nonlinear_arith)
        requires
            b > 0,
            m >= 0,
            m * b <= a < (m + 1) * b,
    ;
}

/// A product divided by one of its factors gives the other.
pub proof fn lemma_quot_of_multiple(a: int, d: int)
    requires
        d != 0,
    ensures
        quot(a * d, d) == a,
{
    assert(magnitude(a * d) == magnitude(a) * magnitude(d) && (a != 0 ==> ((a < 0) <==> ((a * d
        < 0) != (d < 0))))) by (nonlinear_arith)
        requires
            d != 0,
    ;
    assert(magnitude(a) * magnitude(d) < (magnitude(a) + 1) * magnitude(d)) by (nonlinear_arith)
        requires
            d != 0,
    ;
    lemma_quot_unique(a * d, d, a);
}

/// Every natural number has an integer square root.
pub proof fn lemma_sqrt_floor_exists(n: nat) -> (r: nat)
    ensures
        is_sqrt_floor(n, r),
        is_sqrt_floor(n, sqrt_floor(n)),
    decreases n,
{
    if n == 0 {
        assert(is_sqrt_floor(0, 0)) by (nonlinear_arith);
        0
    } else {
        let p = lemma_sqrt_floor_exists((n - 1) as nat);
        let r = if (p + 1) * (p + 1) <= n {
            p + 1
        } else {
            p
        };
        assert(is_sqrt_floor(n, r)) by (nonlinear_arith)
            requires
                p * p <= n - 1,
                n - 1 < (p + 1) * (p + 1),
                r == (if (p + 1) * (p + 1) <= n {
                    p + 1
                } else {
                    p
                }),
        ;
        r
    }
}

/// The integer square root is the only number that meets its definition.
pub proof fn lemma_sqrt_floor_unique(n: nat, r: nat)
    requires
        is_sqrt_floor(n, r),
    ensures
        r == sqrt_floor(n),
{
    let s = sqrt_floor(n);
    assert(is_sqrt_floor(n, s));
    assert(r == s) by (nonlinear_arith)
        requires
            r * r <= n,
            n < (r + 1) * (r + 1),
            s * s <= n,
            n < (s + 1) * (s + 1),
    ;
}

/// Divides and rounds toward zero.
pub(crate) fn div_toward_zero(n: i128, d: i128) -> (q: i128)
    requires
        d != 0,
        n > i128::MIN,
        d > i128::MIN,
    ensures
        q == quot(n as int, d as int),
{
    let an: i128 = if n < 0 {
        -n
    } else {
        n
    };
    let ad: i128 = if d < 0 {
        -d
    } else {
        d
    };
    let m: i128 = an / ad;
    assert(0 <= m <= an) by (nonlinear_arith)
        requires
            m == (an as int) / (ad as int),
            an >= 0,
            ad > 0,
    ;
    if (n < 0) == (d < 0) {
        m
    } else {
        -m
    }
}

/// Computes the integer square root by bisection.
pub fn isqrt(n: u128) -> (r: u64)
    ensures
        r == sqrt_floor(n as nat),
{
    let mut lo: u128 = 0;
    let mut hi: u128 = 0x1_0000_0000_0000_0000;
    assert(n < hi * hi) by (nonlinear_arith)
        requires
            hi == 0x1_0000_0000_0000_0000,
            n <= u128::MAX,
    ;
    while hi - lo > 1
        invariant
            lo < hi <= 0x1_0000_0000_0000_0000,
            lo * lo <= n < hi * hi,
        decreases hi - lo,
    {
        let mid: u128 = lo + (hi - lo) / 2;
        assert(mid * mid <= u128::MAX) by (nonlinear_arith)
            requires
                mid < 0x1_0000_0000_0000_0000,
        ;
        if mid * mid <= n {
            lo = mid;
        } else {
            hi = mid;
        }
    }
    proof {
        assert(hi == lo + 1);
        lemma_sqrt_floor_unique(n as nat, lo as nat);
    }
    lo as u64
}

} // verus!
