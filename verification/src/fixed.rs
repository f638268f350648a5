//! Saturating fixed-point arithmetic.
//!
//! A raw `i64` value `x` stands for the real number `x / SCALE`. Every
//! operation clamps its result into `[-CAP, CAP]`, so that sums never
//! overflow an `i64` and products of two in-range values fit an `i64`.

use vstd::prelude::*;
use vstd::arithmetic::div_mod::{lemma_fundamental_div_mod, lemma_div_basics_4};

verus! {

/// Number of raw units in one: the raw value `SCALE` stands for 1.0.
pub const SCALE: i64 = 65536;

/// Every quantity the engine stores or computes is kept in `[-CAP, CAP]`
/// (about 16384 in real terms); `CAP * CAP` still fits an `i64`.
pub const CAP: i64 = 0x4000_0000;

/// Whether a raw value lies in the representable band.
pub open spec fn in_cap(x: int) -> bool {
    -CAP <= x <= CAP
}

/// Clamping into `[-CAP, CAP]`.
pub open spec fn sat(x: int) -> int {
    if x > CAP {
        CAP as int
    } else if x < -CAP {
        -(CAP as int)
    } else {
        x
    }
}

/// Division of a raw product by `SCALE`, rounding toward zero.
pub open spec fn scaled_down(p: int) -> int {
    if p >= 0 {
        p / (SCALE as int)
    } else {
        -((-p) / (SCALE as int))
    }
}

/// What saturating fixed-point addition returns.
pub open spec fn fx_add_spec(a: int, b: int) -> int {
    sat(a + b)
}

/// What saturating fixed-point subtraction returns.
pub open spec fn fx_sub_spec(a: int, b: int) -> int {
    sat(a - b)
}

/// What saturating fixed-point multiplication returns.
pub open spec fn fx_mul_spec(a: int, b: int) -> int {
    sat(scaled_down(a * b))
}

/// What the saturating activation returns: the fixed-point form of
/// `x / (1 + |x|)`, an odd, monotone map of the whole band into the open
/// interval (-1.0, 1.0).
pub open spec fn squash_spec(x: int) -> int {
    if x >= 0 {
        (x * SCALE) / ((SCALE + x) as int)
    } else {
        -(((-x) * SCALE) / ((SCALE - x) as int))
    }
}

/// Saturating fixed-point addition.
pub fn fx_add(a: i64, b: i64) -> (r: i64)
    requires
        in_cap(a as int),
        in_cap(b as int),
    ensures
        r == fx_add_spec(a as int, b as int),
        in_cap(r as int),
{
    let s: i64 = a + b;
    if s > CAP {
        CAP
    } else if s < -CAP {
        -CAP
    } else {
        s
    }
}

/// Saturating fixed-point subtraction.
pub fn fx_sub(a: i64, b: i64) -> (r: i64)
    requires
        in_cap(a as int),
        in_cap(b as int),
    ensures
        r == fx_sub_spec(a as int, b as int),
        in_cap(r as int),
{
    let s: i64 = a - b;
    if s > CAP {
        CAP
    } else if s < -CAP {
        -CAP
    } else {
        s
    }
}

/// Saturating fixed-point multiplication.
pub fn fx_mul(a: i64, b: i64) -> (r: i64)
    requires
        in_cap(a as int),
        in_cap(b as int),
    ensures
        r == fx_mul_spec(a as int, b as int),
        in_cap(r as int),
{
    proof {
        assert(-0x1000_0000_0000_0000 <= (a as int) * (b as int) <= 0x1000_0000_0000_0000)
            by (nonlinear_arith)
            requires
                -CAP <= a <= CAP,
                -CAP <= b <= CAP,
                CAP == 0x4000_0000,
        ;
    }
    let p: i64 = a * b;
    let q: i64 = if p >= 0 {
        p / SCALE
    } else {
        proof {
            lemma_div_basics_4(-p as int, SCALE as int);
            lemma_div_is_bounded(-p as int, SCALE as int);
        }
        -((-p) / SCALE)
    };
    proof {
        if p >= 0 {
            lemma_div_basics_4(p as int, SCALE as int);
            lemma_div_is_bounded(p as int, SCALE as int);
        }
    }
    if q > CAP {
        CAP
    } else if q < -CAP {
        -CAP
    } else {
        q
    }
}

/// For a nonnegative numerator, division by a positive divisor never
/// exceeds the numerator.
proof fn lemma_div_is_bounded(x: int, d: int)
    requires
        0 <= x,
        1 <= d,
    ensures
        0 <= x / d <= x,
{
    lemma_fundamental_div_mod(x, d);
    lemma_div_basics_4(x, d);
    assert(x / d <= x) by (nonlinear_arith)
        requires
            0 <= x,
            1 <= d,
            0 <= x / d,
            d * (x / d) + x % d == x,
            0 <= x % d,
    ;
}

/// The saturating activation maps the whole representable band strictly
/// inside the unit band `(-SCALE, SCALE)`.
pub proof fn lemma_squash_bounds(x: int)
    requires
        in_cap(x),
    ensures
        -SCALE < squash_spec(x) < SCALE,
        in_cap(squash_spec(x)),
{
    if x >= 0 {
        lemma_squash_quotient_bounds(x);
    } else {
        lemma_squash_quotient_bounds(-x);
    }
}

/// The saturating activation. Its result is strictly inside
/// `(-SCALE, SCALE)`: hidden neurons, and output neurons outside
/// regression mode, always stay in the unit band.
pub fn squash(x: i64) -> (r: i64)
    requires
        in_cap(x as int),
    ensures
        r == squash_spec(x as int),
        -SCALE < r < SCALE,
{
    if x >= 0 {
        let n: i64 = x * SCALE;
        let d: i64 = SCALE + x;
        proof {
            lemma_squash_quotient_bounds(x as int);
        }
        n / d
    } else {
        let n: i64 = (-x) * SCALE;
        let d: i64 = SCALE - x;
        proof {
            lemma_squash_quotient_bounds(-x as int);
        }
        -(n / d)
    }
}

/// For `0 <= x <= CAP`, the quotient `(x * SCALE) / (SCALE + x)` lies in
/// `[0, SCALE)`.
proof fn lemma_squash_quotient_bounds(x: int)
    requires
        0 <= x <= CAP,
    ensures
        0 <= (x * SCALE) / ((SCALE + x) as int) < SCALE,
{
    let n = x * SCALE;
    let d = (SCALE + x) as int;
    assert(0 <= n) by (nonlinear_arith)
        requires
            0 <= x,
            SCALE == 65536,
            n == x * SCALE,
    ;
    lemma_div_basics_4(n, d);
    lemma_fundamental_div_mod(n, d);
    assert(n < d * (SCALE as int)) by (nonlinear_arith)
        requires
            0 <= x,
            SCALE == 65536,
            n == x * SCALE,
            d == SCALE + x,
    ;
    assert(n / d < SCALE) by (nonlinear_arith)
        requires
            0 < d,
            d * (n / d) + n % d == n,
            0 <= n % d,
            n < d * (SCALE as int),
    ;
}

} // verus!
