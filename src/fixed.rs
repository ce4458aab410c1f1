//! Fixed-point arithmetic for stat values and time.
//!
//! Every stat value, magnitude and factor is an `i64` counting thousandths of a
//! unit, and every duration counts milliseconds, so that one second of time is
//! one unit of the same scale. Results that leave the `i64` range saturate.
use vstd::prelude::*;

verus! {

/// One whole unit (and one second, in milliseconds).
pub const UNIT: i64 = 1000;

/// The value nearest to `x` that an `i64` can hold.
pub open spec fn sat(x: int) -> i64 {
    if x > i64::MAX {
        i64::MAX
    } else if x < i64::MIN {
        i64::MIN
    } else {
        x as i64
    }
}

pub open spec fn abs(x: int) -> nat {
    if x < 0 {
        (-x) as nat
    } else {
        x as nat
    }
}

/// `a / b` rounded toward zero.
pub open spec fn quot(a: int, b: int) -> int {
    let q = abs(a) / abs(b);
    if (a < 0) != (b < 0) {
        -q
    } else {
        q as int
    }
}

/// Fixed-point product of `a` and `b`.
pub open spec fn fmul(a: int, b: int) -> i64 {
    sat(quot(a * b, UNIT as int))
}

/// `x` raised to the `n`-th power, one rounded product at a time.
pub open spec fn fpow(x: i64, n: nat) -> i64
    decreases n,
{
    if n == 0 {
        UNIT
    } else {
        fmul(fpow(x, (n - 1) as nat) as int, x as int)
    }
}

pub open spec fn max_i64(a: i64, b: i64) -> i64 {
    if a >= b {
        a
    } else {
        b
    }
}

pub open spec fn min_i64(a: i64, b: i64) -> i64 {
    if a <= b {
        a
    } else {
        b
    }
}

fn saturate(x: i128) -> (r: i64)
    ensures
        r == sat(x as int),
{
    if x > i64::MAX as i128 {
        i64::MAX
    } else if x < i64::MIN as i128 {
        i64::MIN
    } else {
        x as i64
    }
}

/// Saturating sum.
pub fn add_sat(a: i64, b: i64) -> (r: i64)
    ensures
        r == sat(a + b),
{
    saturate(a as i128 + b as i128)
}

/// Saturating difference.
pub fn sub_sat(a: i64, b: i64) -> (r: i64)
    ensures
        r == sat(a - b),
{
    saturate(a as i128 - b as i128)
}

/// `a * b / d`, rounded toward zero and saturated, computed without overflow.
pub fn mul_div(a: i64, b: i64, d: i64) -> (r: i64)
    requires
        d != 0,
    ensures
        r == sat(quot(a * b, d as int)),
{
    let ai: i128 = a as i128;
    let bi: i128 = b as i128;
    assert(-0x8000_0000_0000_0000 <= ai <= 0x7fff_ffff_ffff_ffff);
    assert(-0x8000_0000_0000_0000 <= bi <= 0x7fff_ffff_ffff_ffff);
    assert(ai * bi <= 0x4000_0000_0000_0000_0000_0000_0000_0000
        && ai * bi >= -0x4000_0000_0000_0000_0000_0000_0000_0000) by (nonlinear_arith)
        requires
            -0x8000_0000_0000_0000 <= ai <= 0x7fff_ffff_ffff_ffff,
            -0x8000_0000_0000_0000 <= bi <= 0x7fff_ffff_ffff_ffff,
    ;
    let p: i128 = ai * bi;
    let n: u128 = if p < 0 {
        (-p) as u128
    } else {
        p as u128
    };
    let di: i128 = d as i128;
    let m: u128 = if di < 0 {
        (-di) as u128
    } else {
        di as u128
    };
    assert(n == abs(a * b));
    assert(m == abs(d as int));
    let q: u128 = n / m;
    assert(q <= n) by (nonlinear_arith)
        requires
            q == n / m,
            m >= 1,
    ;
    let qi: i128 = q as i128;
    let s: i128 = if (p < 0) != (di < 0) {
        -qi
    } else {
        qi
    };
    saturate(s)
}

/// Fixed-point product.
pub fn mul_fixed(a: i64, b: i64) -> (r: i64)
    ensures
        r == fmul(a as int, b as int),
{
    mul_div(a, b, UNIT)
}

/// Fixed-point power by repeated rounded products.
pub fn pow_fixed(x: i64, n: u32) -> (r: i64)
    ensures
        r == fpow(x, n as nat),
{
    let mut acc: i64 = UNIT;
    let mut i: u32 = 0;
    while i < n
        invariant
            i <= n,
            acc == fpow(x, i as nat),
        decreases n - i,
    {
        acc = mul_fixed(acc, x);
        i = i + 1;
    }
    acc
}

pub fn max_of(a: i64, b: i64) -> (r: i64)
    ensures
        r == max_i64(a, b),
{
    if a >= b {
        a
    } else {
        b
    }
}

pub fn min_of(a: i64, b: i64) -> (r: i64)
    ensures
        r == min_i64(a, b),
{
    if a <= b {
        a
    } else {
        b
    }
}

} // verus!
