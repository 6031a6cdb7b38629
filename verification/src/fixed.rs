//! Saturating fixed-point scalar arithmetic.
//!
//! A real number `r` is stored as the integer `r * SCALE`, rounded toward
//! negative infinity.  Every operation saturates at `VMAX`, so all stored
//! scalars lie in `[-VMAX, VMAX]` and no executable step can overflow.

use vstd::prelude::*;
use vstd::arithmetic::div_mod::lemma_fundamental_div_mod;
use vstd::arithmetic::div_mod::lemma_fundamental_div_mod_converse;

verus! {

/// Number of fixed-point units in one: a stored value `v` means `v / SCALE`.
pub const SCALE: i64 = 1_000_000;

/// The value two in fixed-point units.
pub const TWO_FX: i64 = 2_000_000;

/// The value four in fixed-point units.
pub const FOUR_FX: i64 = 4_000_000;

/// Saturation bound of the numeric domain.  It also serves as the
/// "unbounded" ray parameter: a hit parameter of `VMAX` means "no hit",
/// and a range bound of `VMAX` means "effectively unbounded".
pub const VMAX: i64 = 1_000_000_000_000_000_000;

/// Clamp a mathematical integer into the stored domain `[-VMAX, VMAX]`.
pub open spec fn cap(x: int) -> int {
    if x > VMAX {
        VMAX as int
    } else if x < -VMAX {
        -VMAX as int
    } else {
        x
    }
}

/// Fixed-point addition.
pub open spec fn fx_add(a: int, b: int) -> int {
    cap(a + b)
}

/// Fixed-point subtraction.
pub open spec fn fx_sub(a: int, b: int) -> int {
    cap(a - b)
}

/// Fixed-point multiplication: `(a * b) / SCALE`, rounded toward negative
/// infinity, then clamped.
pub open spec fn fx_mul(a: int, b: int) -> int {
    cap((a * b) / (SCALE as int))
}

/// Fixed-point division by a positive divisor: `(a * SCALE) / b`, rounded
/// toward negative infinity, then clamped.
pub open spec fn fx_div(a: int, b: int) -> int {
    cap((a * SCALE) / b)
}

/// The integer square root, rounded down: the greatest `r` with `r * r <= n`
/// (and `0` for negative input).
pub open spec fn sqrt_floor(n: int) -> int
    decreases n,
{
    if n <= 0 {
        0
    } else {
        let r = sqrt_floor(n - 1);
        if (r + 1) * (r + 1) <= n {
            r + 1
        } else {
            r
        }
    }
}

/// Fixed-point square root of a nonnegative value: `sqrt(a / SCALE) * SCALE`,
/// rounded down, computed as the integer square root of `a * SCALE`.
pub open spec fn fx_sqrt(a: int) -> int {
    sqrt_floor(a * SCALE)
}

/// Fixed-point power with a nonnegative integer exponent.
pub open spec fn fx_pow(b: int, e: nat) -> int
    decreases e,
{
    if e == 0 {
        SCALE as int
    } else {
        fx_mul(b, fx_pow(b, (e - 1) as nat))
    }
}

/// `sqrt_floor(n)` is nonnegative, and for nonnegative `n` it is the unique
/// integer whose square is at most `n` while the next square exceeds `n`.
pub proof fn lemma_sqrt_floor_bounds(n: int)
    ensures
        0 <= sqrt_floor(n),
        n >= 0 ==> sqrt_floor(n) * sqrt_floor(n) <= n,
        n >= 0 ==> n < (sqrt_floor(n) + 1) * (sqrt_floor(n) + 1),
    decreases n,
{
    if n <= 0 {
    } else {
        lemma_sqrt_floor_bounds(n - 1);
        let r = sqrt_floor(n - 1);
        if (r + 1) * (r + 1) <= n {
            assert((r + 1 + 1) * (r + 1 + 1) > n) by (nonlinear_arith)
                requires
                    r >= 0,
                    n - 1 < (r + 1) * (r + 1),
            ;
        }
    }
}

/// Any integer in the square-root window of `n` equals `sqrt_floor(n)`.
pub proof fn lemma_sqrt_floor_unique(n: int, r: int)
    requires
        0 <= r,
        r * r <= n,
        n < (r + 1) * (r + 1),
    ensures
        r == sqrt_floor(n),
{
    lemma_sqrt_floor_bounds(n);
    let s = sqrt_floor(n);
    if r < s {
        assert((r + 1) * (r + 1) <= s * s) by (nonlinear_arith)
            requires
                0 <= r,
                r < s,
            ;
    }
    if s < r {
        assert((s + 1) * (s + 1) <= r * r) by (nonlinear_arith)
            requires
                0 <= s,
                s < r,
            ;
    }
}

/// Clamp an `i128` into the stored domain.
pub fn cap_i128(x: i128) -> (r: i64)
    ensures
        r as int == cap(x as int),
        -VMAX <= r <= VMAX,
{
    if x > VMAX as i128 {
        VMAX
    } else if x < -(VMAX as i128) {
        -VMAX
    } else {
        x as i64
    }
}

/// Division of an `i128` by a positive divisor, rounded toward negative
/// infinity (the rounding that the specification-level `/` uses).
pub fn div_floor_i128(a: i128, b: i128) -> (q: i128)
    requires
        b > 0,
        a > i128::MIN,
    ensures
        q == a as int / b as int,
{
    if a >= 0 {
        let q0: u128 = (a as u128) / (b as u128);
        proof {
            lemma_fundamental_div_mod(a as int, b as int);
            assert(q0 <= a) by (nonlinear_arith)
                requires
                    b >= 1,
                    a >= 0,
                    q0 == a as int / b as int,
            ;
        }
        q0 as i128
    } else {
        let na: u128 = (-a) as u128;
        let bu: u128 = b as u128;
        let d: u128 = na / bu;
        let m: u128 = na % bu;
        proof {
            lemma_fundamental_div_mod(na as int, bu as int);
            assert(na as int == d * bu + m) by (nonlinear_arith)
                requires
                    na as int == bu as int * (na as int / bu as int) + na as int % bu as int,
                    d == na as int / bu as int,
                    m == na as int % bu as int,
            ;
            assert(d <= na) by (nonlinear_arith)
                requires
                    bu >= 1,
                    na as int == d * bu + m,
                    m >= 0,
                    d >= 0,
            ;
        }
        if m == 0 {
            proof {
                assert(a as int == (-(d as int)) * (b as int) + 0) by (nonlinear_arith)
                    requires
                        a as int == -(na as int),
                        na as int == d * bu + m,
                        m == 0,
                        bu == b,
                ;
                lemma_fundamental_div_mod_converse(a as int, b as int, -(d as int), 0);
            }
            -(d as i128)
        } else {
            proof {
                assert(a as int == (-(d as int) - 1) * (b as int) + (b - m)) by (nonlinear_arith)
                    requires
                        a as int == -(na as int),
                        na as int == d * bu + m,
                        bu == b,
                ;
                lemma_fundamental_div_mod_converse(a as int, b as int, -(d as int) - 1, b as int - m as int);
                assert(d < na) by (nonlinear_arith)
                    requires
                        bu >= 1,
                        na as int == d * bu + m,
                        m > 0,
                        d >= 0,
                ;
            }
            -(d as i128) - 1
        }
    }
}

/// Saturating fixed-point addition.
pub fn fadd(a: i64, b: i64) -> (r: i64)
    ensures
        r as int == fx_add(a as int, b as int),
        -VMAX <= r <= VMAX,
{
    cap_i128(a as i128 + b as i128)
}

/// Saturating fixed-point subtraction.
pub fn fsub(a: i64, b: i64) -> (r: i64)
    ensures
        r as int == fx_sub(a as int, b as int),
        -VMAX <= r <= VMAX,
{
    cap_i128(a as i128 - b as i128)
}

/// Saturating fixed-point multiplication.
pub fn fmul(a: i64, b: i64) -> (r: i64)
    ensures
        r as int == fx_mul(a as int, b as int),
        -VMAX <= r <= VMAX,
{
    proof {
        assert((a as int) * (b as int) <= 0x4000_0000_0000_0000_0000_0000_0000_0000int
            && (a as int) * (b as int) >= -0x4000_0000_0000_0000_0000_0000_0000_0000int) by (nonlinear_arith)
            requires
                -0x8000_0000_0000_0000int <= a <= 0x8000_0000_0000_0000int,
                -0x8000_0000_0000_0000int <= b <= 0x8000_0000_0000_0000int,
        ;
    }
    let p: i128 = (a as i128) * (b as i128);
    cap_i128(div_floor_i128(p, SCALE as i128))
}

/// Saturating fixed-point division by a positive divisor.
pub fn fdiv(a: i64, b: i64) -> (r: i64)
    requires
        b > 0,
    ensures
        r as int == fx_div(a as int, b as int),
        -VMAX <= r <= VMAX,
{
    proof {
        assert((a as int) * (SCALE as int) <= 0x4000_0000_0000_0000_0000_0000_0000_0000int
            && (a as int) * (SCALE as int) >= -0x4000_0000_0000_0000_0000_0000_0000_0000int) by (nonlinear_arith)
            requires
                -0x8000_0000_0000_0000int <= a <= 0x8000_0000_0000_0000int,
        ;
    }
    let p: i128 = (a as i128) * (SCALE as i128);
    cap_i128(div_floor_i128(p, b as i128))
}

/// Integer square root of a `u128` below `2^126`, by bisection.
fn isqrt_u128(n: u128) -> (r: u128)
    requires
        n < 0x4000_0000_0000_0000_0000_0000_0000_0000,
    ensures
        r * r <= n,
        n < (r + 1) * (r + 1),
        r < 0x8000_0000_0000_0000,
{
    let mut lo: u128 = 0;
    let mut hi: u128 = 0x8000_0000_0000_0000;
    while lo + 1 < hi
        invariant
            lo < hi,
            hi <= 0x8000_0000_0000_0000,
            lo * lo <= n,
            n < hi * hi,
        decreases hi - lo,
    {
        let mid: u128 = lo + (hi - lo) / 2;
        proof {
            assert(mid * mid <= 0x4000_0000_0000_0000_0000_0000_0000_0000u128) by (nonlinear_arith)
                requires
                    mid <= 0x8000_0000_0000_0000u128,
            ;
        }
        if mid * mid <= n {
            lo = mid;
        } else {
            hi = mid;
        }
    }
    lo
}

/// Saturating fixed-point square root of a nonnegative value.
pub fn fsqrt(a: i64) -> (r: i64)
    requires
        0 <= a,
    ensures
        r as int == fx_sqrt(a as int),
        0 <= r <= VMAX,
{
    proof {
        assert((a as int) * (SCALE as int) < 0x4000_0000_0000_0000_0000_0000_0000_0000int) by (nonlinear_arith)
            requires
                0 <= a <= 0x8000_0000_0000_0000int,
        ;
    }
    let n: u128 = (a as u128) * (SCALE as u128);
    let s: u128 = isqrt_u128(n);
    proof {
        lemma_sqrt_floor_unique(n as int, s as int);
        assert(s <= 4_000_000_000_000int) by (nonlinear_arith)
            requires
                s * s <= n,
                n <= 0x8000_0000_0000_0000int * 1_000_000int,
        ;
    }
    s as i64
}

/// Saturating fixed-point power with a nonnegative integer exponent.
pub fn fpow(b: i64, e: u64) -> (r: i64)
    ensures
        r as int == fx_pow(b as int, e as nat),
{
    let mut r: i64 = SCALE;
    let mut i: u64 = 0;
    while i < e
        invariant
            i <= e,
            r as int == fx_pow(b as int, i as nat),
        decreases e - i,
    {
        r = fmul(b, r);
        i = i + 1;
    }
    r
}

} // verus!
