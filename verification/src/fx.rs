//! Fixed-point scalar arithmetic.
//!
//! A quantity is stored as an `i64` count of `1/SCALE` steps.  Products and
//! quotients truncate toward zero, as the corresponding `i128` operations do,
//! and every result saturates into `[-RANGE, RANGE]`, so all operations are
//! total.  The spec functions `clip`, `tdiv`, `fx_add`, `fx_sub`, `fx_mul`,
//! `fx_div`, `fx_max0`, `fx_clamp_unit`, `fx_pow` and `sqrt_floor` state the
//! exact value of each executable operation.

use vstd::prelude::*;

verus! {

/// Number of fixed-point steps per unit.
pub const SCALE: i64 = 65536;

/// Largest magnitude a fixed-point value may take: 2^62.
pub const RANGE: i64 = 0x4000_0000_0000_0000;

/// Saturation of an unbounded integer into `[-RANGE, RANGE]`.
pub open spec fn clip(x: int) -> int {
    if x > RANGE as int {
        RANGE as int
    } else if x < -(RANGE as int) {
        -(RANGE as int)
    } else {
        x
    }
}

/// Division truncating toward zero, for a positive divisor.
pub open spec fn tdiv(x: int, d: int) -> int {
    if x >= 0 {
        x / d
    } else {
        -((-x) / d)
    }
}

/// Saturating fixed-point sum.
pub open spec fn fx_add(a: int, b: int) -> int {
    clip(a + b)
}

/// Saturating fixed-point difference.
pub open spec fn fx_sub(a: int, b: int) -> int {
    clip(a - b)
}

/// Saturating fixed-point product: the exact product carries `SCALE^2`
/// steps per unit, so it is scaled back down with truncation.
pub open spec fn fx_mul(a: int, b: int) -> int {
    clip(tdiv(a * b, SCALE as int))
}

/// Saturating fixed-point quotient, for a positive divisor.
pub open spec fn fx_div(a: int, b: int) -> int {
    clip(tdiv(a * (SCALE as int), b))
}

/// The non-negative part of a value.
pub open spec fn fx_max0(x: int) -> int {
    if x < 0 {
        0
    } else {
        x
    }
}

/// A value clamped into `[-1, 1]`, that is `[-SCALE, SCALE]` in steps.
pub open spec fn fx_clamp_unit(x: int) -> int {
    if x < -(SCALE as int) {
        -(SCALE as int)
    } else if x > SCALE as int {
        SCALE as int
    } else {
        x
    }
}

/// The `e`-th power of a fixed-point value, as `e` successive
/// fixed-point products.
pub open spec fn fx_pow(b: int, e: nat) -> int
    decreases e,
{
    if e == 0 {
        SCALE as int
    } else {
        fx_mul(b, fx_pow(b, (e - 1) as nat))
    }
}

/// The integer square root: the greatest `r` with `r * r <= n`.
pub open spec fn sqrt_floor(n: int) -> int {
    choose|r: int| 0 <= r && #[trigger] (r * r) <= n && n < (r + 1) * (r + 1)
}

/// Any value with the square-root property is the one `sqrt_floor` denotes.
pub proof fn lemma_sqrt_floor_is(n: int, r: int)
    requires
        0 <= r,
        r * r <= n,
        n < (r + 1) * (r + 1),
    ensures
        sqrt_floor(n) == r,
{
    assert(0 <= r && #[trigger] (r * r) <= n && n < (r + 1) * (r + 1));
    let w = choose|w: int| 0 <= w && #[trigger] (w * w) <= n && n < (w + 1) * (w + 1);
    assert(0 <= w && w * w <= n && n < (w + 1) * (w + 1));
    if w < r {
        assert((w + 1) * (w + 1) <= r * r) by (nonlinear_arith)
            requires
                0 <= w,
                w < r,
        ;
    }
    if r < w {
        assert((r + 1) * (r + 1) <= w * w) by (nonlinear_arith)
            requires
                0 <= r,
                r < w,
        ;
    }
    assert(w == r);
}

/// Saturation of an `i128` into the fixed-point range.
pub fn clip_i128(x: i128) -> (r: i64)
    ensures
        r as int == clip(x as int),
{
    if x > RANGE as i128 {
        RANGE
    } else if x < -(RANGE as i128) {
        -RANGE
    } else {
        x as i64
    }
}

/// Truncating division of an `i128` by a positive divisor.
pub fn div_trunc_i128(x: i128, d: i128) -> (r: i128)
    requires
        0 < d,
        i128::MIN < x,
    ensures
        r as int == tdiv(x as int, d as int),
{
    if x >= 0 {
        let q: u128 = (x as u128) / (d as u128);
        assert(q <= x as u128) by (nonlinear_arith)
            requires
                q == (x as u128) / (d as u128),
                0 < d as u128,
        ;
        q as i128
    } else {
        let m: u128 = (-x) as u128;
        let q: u128 = m / (d as u128);
        assert(q <= m) by (nonlinear_arith)
            requires
                q == m / (d as u128),
                0 < d as u128,
        ;
        -(q as i128)
    }
}

/// Saturating fixed-point sum.
pub fn add_fx(a: i64, b: i64) -> (r: i64)
    ensures
        r as int == fx_add(a as int, b as int),
{
    clip_i128(a as i128 + b as i128)
}

/// Saturating fixed-point difference.
pub fn sub_fx(a: i64, b: i64) -> (r: i64)
    ensures
        r as int == fx_sub(a as int, b as int),
{
    clip_i128(a as i128 - b as i128)
}

/// Saturating fixed-point product.
pub fn mul_fx(a: i64, b: i64) -> (r: i64)
    ensures
        r as int == fx_mul(a as int, b as int),
{
    assert(i128::MIN < (a as int) * (b as int) && (a as int) * (b as int) <= i128::MAX)
        by (nonlinear_arith)
        requires
            i64::MIN <= a as int <= i64::MAX,
            i64::MIN <= b as int <= i64::MAX,
    ;
    let p: i128 = (a as i128) * (b as i128);
    let q = div_trunc_i128(p, SCALE as i128);
    clip_i128(q)
}

/// Saturating fixed-point quotient, for a positive divisor.
pub fn div_fx(a: i64, b: i64) -> (r: i64)
    requires
        0 < b,
    ensures
        r as int == fx_div(a as int, b as int),
{
    assert(i128::MIN < (a as int) * (SCALE as int) && (a as int) * (SCALE as int) <= i128::MAX)
        by (nonlinear_arith)
        requires
            i64::MIN <= a as int <= i64::MAX,
    ;
    let p: i128 = (a as i128) * (SCALE as i128);
    let q = div_trunc_i128(p, b as i128);
    clip_i128(q)
}

/// The non-negative part of a value.
pub fn max0_fx(x: i64) -> (r: i64)
    ensures
        r as int == fx_max0(x as int),
{
    if x < 0 {
        0
    } else {
        x
    }
}

/// A value clamped into `[-SCALE, SCALE]`.
pub fn clamp_unit_fx(x: i64) -> (r: i64)
    ensures
        r as int == fx_clamp_unit(x as int),
{
    if x < -SCALE {
        -SCALE
    } else if x > SCALE {
        SCALE
    } else {
        x
    }
}

/// The `e`-th fixed-point power of `b`.
pub fn pow_fx(b: i64, e: u32) -> (r: i64)
    ensures
        r as int == fx_pow(b as int, e as nat),
{
    let mut acc: i64 = SCALE;
    let mut i: u32 = 0;
    while i < e
        invariant
            i <= e,
            acc as int == fx_pow(b as int, i as nat),
        decreases e - i,
    {
        acc = mul_fx(b, acc);
        i = i + 1;
    }
    acc
}

/// The integer square root of a `u128`.
pub fn isqrt(n: u128) -> (r: u64)
    ensures
        (r as int) * (r as int) <= n as int,
        (n as int) < (r as int + 1) * (r as int + 1),
        r as int == sqrt_floor(n as int),
{
    let mut lo: u128 = 0;
    let mut hi: u128 = 0xFFFF_FFFF_FFFF_FFFF;
    assert((n as int) < (hi as int + 1) * (hi as int + 1)) by (nonlinear_arith)
        requires
            n as int <= u128::MAX as int,
            hi as int == 0xFFFF_FFFF_FFFF_FFFF,
    ;
    while lo < hi
        invariant
            lo <= hi,
            hi as int <= 0xFFFF_FFFF_FFFF_FFFF,
            (lo as int) * (lo as int) <= n as int,
            (n as int) < (hi as int + 1) * (hi as int + 1),
        decreases hi - lo,
    {
        let mid: u128 = lo + (hi - lo + 1) / 2;
        assert(lo < mid <= hi);
        assert((mid as int) * (mid as int) <= u128::MAX as int) by (nonlinear_arith)
            requires
                mid as int <= 0xFFFF_FFFF_FFFF_FFFF,
                0 <= mid as int,
        ;
        if mid * mid <= n {
            lo = mid;
        } else {
            hi = mid - 1;
        }
    }
    proof {
        lemma_sqrt_floor_is(n as int, lo as int);
    }
    lo as u64
}

/// The square root of a non-negative fixed-point value: the result carries
/// `SCALE` steps per unit exactly when the argument's `SCALE` steps are
/// widened to `SCALE^2` before the integer square root.
pub fn sqrt_scaled_i128(v: i128) -> (r: i64)
    requires
        0 <= v,
        v <= 2 * (RANGE as int),
    ensures
        r as int == sqrt_floor(v * (SCALE as int)),
        0 <= r,
        r as int <= 0x100_0000_0000,
{
    assert((v as int) * (SCALE as int) <= u128::MAX as int) by (nonlinear_arith)
        requires
            0 <= v as int <= 2 * (RANGE as int),
    ;
    let n: u128 = (v as u128) * (SCALE as u128);
    let r = isqrt(n);
    proof {
        if r as int >= 0x100_0000_0000 {
            assert((r as int) * (r as int) > 2 * (RANGE as int) * (SCALE as int))
                by (nonlinear_arith)
                requires
                    r as int >= 0x100_0000_0000,
            ;
            assert((v as int) * (SCALE as int) <= 2 * (RANGE as int) * (SCALE as int))
                by (nonlinear_arith)
                requires
                    0 <= v as int <= 2 * (RANGE as int),
            ;
        }
    }
    r as i64
}

} // verus!
