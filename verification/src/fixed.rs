//! Saturating fixed-point arithmetic on `i64` scalars.
//!
//! A scalar holds a real quantity scaled by `UNIT`: the value `x` stands for
//! the real number `x / UNIT`.  Products and quotients are computed exactly
//! in `i128` and then saturated into the `i64` range, so every operation is a
//! total function with an exact mathematical description and no overflow.

use vstd::prelude::*;

verus! {

/// The fixed-point scale: a scalar `x` represents the real `x / UNIT`.
pub const UNIT: i64 = 65536;

/// Magnitude of an integer.
pub open spec fn absi(x: int) -> int {
    if x < 0 {
        -x
    } else {
        x
    }
}

/// Saturate an unbounded integer into the `i64` range.
pub open spec fn sat64(x: int) -> int {
    if x < i64::MIN {
        i64::MIN as int
    } else if x > i64::MAX {
        i64::MAX as int
    } else {
        x
    }
}

/// Division truncated toward zero (the rounding used throughout).
pub open spec fn divt(n: int, d: int) -> int
    recommends
        d != 0,
{
    let q = absi(n) / absi(d);
    if (n < 0) != (d < 0) {
        -q
    } else {
        q
    }
}

/// Fixed-point product: `(a * b) / UNIT`, truncated, then saturated.
pub open spec fn mul_fx(a: int, b: int) -> int {
    sat64(divt(a * b, UNIT as int))
}

/// Fixed-point quotient: `(a * UNIT) / b`, truncated, then saturated.
pub open spec fn div_fx(a: int, b: int) -> int
    recommends
        b != 0,
{
    sat64(divt(a * (UNIT as int), b))
}

/// Floor of the square root of a nonnegative integer.
pub open spec fn sqrt_floor(n: int) -> int
    decreases n,
{
    if n <= 0 {
        0
    } else {
        let r = sqrt_floor(n - 1);
        if (r + 1) * (r + 1) <= n {
            r + 1
        } else {
            r
        }
    }
}

/// Fixed-point square root: `sqrt(x / UNIT) * UNIT` rounded down, which is
/// `floor(sqrt(x * UNIT))` on the raw scalars.
pub open spec fn sqrt_fx(x: int) -> int {
    if x <= 0 {
        0
    } else {
        sqrt_floor(x * (UNIT as int))
    }
}

/// The product of two values is bounded by the product of their bounds.
pub proof fn lemma_mul_bound(a: int, b: int, aa: int, bb: int)
    by (nonlinear_arith)
    requires
        -aa <= a <= aa,
        -bb <= b <= bb,
        0 <= aa,
        0 <= bb,
    ensures
        -(aa * bb) <= a * b <= aa * bb,
{
}

/// Euclidean division of nonnegative integers never grows the dividend.
proof fn lemma_div_le(n: int, d: int)
    by (nonlinear_arith)
    requires
        n >= 0,
        d >= 1,
    ensures
        0 <= n / d <= n,
{
}

/// `sqrt_floor(n)` is the unique nonnegative root with
/// `r * r <= n < (r + 1) * (r + 1)`.
pub proof fn lemma_sqrt_floor_bounds(n: int)
    requires
        n >= 0,
    ensures
        0 <= sqrt_floor(n),
        sqrt_floor(n) * sqrt_floor(n) <= n,
        n < (sqrt_floor(n) + 1) * (sqrt_floor(n) + 1),
    decreases n,
{
    if n == 0 {
    } else {
        lemma_sqrt_floor_bounds(n - 1);
        let r = sqrt_floor(n - 1);
        if (r + 1) * (r + 1) <= n {
            assert(n < (r + 2) * (r + 2)) by (nonlinear_arith)
                requires
                    n - 1 < (r + 1) * (r + 1),
                    0 <= r,
            {
            }
        }
    }
}

pub proof fn lemma_sqrt_floor_unique(n: int, r: int)
    requires
        n >= 0,
        r >= 0,
        r * r <= n,
        n < (r + 1) * (r + 1),
    ensures
        r == sqrt_floor(n),
{
    lemma_sqrt_floor_bounds(n);
    let s = sqrt_floor(n);
    if r < s {
        assert((r + 1) * (r + 1) <= s * s) by (nonlinear_arith)
            requires
                0 <= r,
                r + 1 <= s,
        {
        }
    } else if s < r {
        assert((s + 1) * (s + 1) <= r * r) by (nonlinear_arith)
            requires
                0 <= s,
                s + 1 <= r,
        {
        }
    }
}

/// Saturate an `i128` into the `i64` range.
pub fn sat_i64(x: i128) -> (r: i64)
    ensures
        r as int == sat64(x as int),
{
    if x < i64::MIN as i128 {
        i64::MIN
    } else if x > i64::MAX as i128 {
        i64::MAX
    } else {
        x as i64
    }
}

/// Truncated division on `i128`, away from the `i128::MIN` edge.
pub fn div_trunc(n: i128, d: i128) -> (q: i128)
    requires
        d != 0,
        n > i128::MIN,
        d > i128::MIN,
    ensures
        q as int == divt(n as int, d as int),
        absi(q as int) <= absi(n as int),
{
    let nn: u128 = if n < 0 {
        (-n) as u128
    } else {
        n as u128
    };
    let dd: u128 = if d < 0 {
        (-d) as u128
    } else {
        d as u128
    };
    let qq: u128 = nn / dd;
    proof {
        assert(qq as int <= nn as int) by {
            lemma_div_le(nn as int, dd as int);
        }
    }
    if (n < 0) != (d < 0) {
        -(qq as i128)
    } else {
        qq as i128
    }
}

/// Saturating fixed-point (and plain integer) addition.
pub fn add_fx(a: i64, b: i64) -> (r: i64)
    ensures
        r as int == sat64(a + b),
{
    sat_i64(a as i128 + b as i128)
}

pub fn sub_fx(a: i64, b: i64) -> (r: i64)
    ensures
        r as int == sat64(a - b),
{
    sat_i64(a as i128 - b as i128)
}

pub fn neg_fx(a: i64) -> (r: i64)
    ensures
        r as int == sat64(-a),
{
    sat_i64(-(a as i128))
}

pub fn mul_fx_e(a: i64, b: i64) -> (r: i64)
    ensures
        r as int == mul_fx(a as int, b as int),
{
    proof {
        lemma_mul_bound(a as int, b as int, 0x8000_0000_0000_0000, 0x8000_0000_0000_0000);
    }
    let p: i128 = (a as i128) * (b as i128);
    let q: i128 = div_trunc(p, UNIT as i128);
    sat_i64(q)
}

pub fn div_fx_e(a: i64, b: i64) -> (r: i64)
    requires
        b != 0,
    ensures
        r as int == div_fx(a as int, b as int),
{
    proof {
        lemma_mul_bound(a as int, UNIT as int, 0x8000_0000_0000_0000, 0x1_0000);
    }
    let p: i128 = (a as i128) * (UNIT as i128);
    let q: i128 = div_trunc(p, b as i128);
    sat_i64(q)
}

/// Floor square root by binary search over the answer.
fn isqrt_u128(n: u128) -> (r: u128)
    ensures
        r as int == sqrt_floor(n as int),
        (r as int) * (r as int) <= n as int,
        (n as int) < (r as int + 1) * (r as int + 1),
{
    let mut lo: u128 = 0;
    let mut hi: u128 = 0x1_0000_0000_0000_0000;
    while hi - lo > 1
        invariant
            lo < hi <= 0x1_0000_0000_0000_0000,
            (lo as int) * (lo as int) <= n as int,
            (n as int) < (hi as int) * (hi as int),
        decreases hi - lo,
    {
        let mid: u128 = lo + (hi - lo) / 2;
        proof {
            assert((mid as int) * (mid as int) < 0x1_0000_0000_0000_0000_0000_0000_0000_0000)
                by (nonlinear_arith)
                requires
                    0 <= mid as int <= 0xffff_ffff_ffff_ffff,
            {
            }
        }
        if mid * mid <= n {
            lo = mid;
        } else {
            hi = mid;
        }
    }
    proof {
        lemma_sqrt_floor_unique(n as int, lo as int);
    }
    lo
}

pub fn sqrt_fx_e(x: i64) -> (r: i64)
    ensures
        r as int == sqrt_fx(x as int),
        r >= 0,
{
    if x <= 0 {
        return 0;
    }
    proof {
        lemma_mul_bound(x as int, UNIT as int, 0x8000_0000_0000_0000, 0x1_0000);
    }
    let wide: u128 = (x as u128) * (UNIT as u128);
    let r: u128 = isqrt_u128(wide);
    proof {
        assert(r as int <= 0xffff_ffff_ffff) by {
            if r as int > 0xffff_ffff_ffff {
                assert((r as int) * (r as int) > 0xffff_ffff_ffff_ffff_ffff_ffff)
                    by (nonlinear_arith)
                    requires
                        r as int > 0xffff_ffff_ffff,
                {
                }
            }
        }
    }
    r as i64
}

} // verus!
