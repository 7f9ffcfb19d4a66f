//! Single-precision (IEEE 754 binary32) arithmetic on positive values, done
//! exactly on integers: conversion from `u32`, division, multiplication, and
//! the saturating truncation back to `u32`. A value is a pair `(m, e)`
//! standing for `m * 2^e`, with `m < 2^24`.

use vstd::prelude::*;

verus! {

/// 2^24: one past the largest significand.
pub const SIGNIFICAND_LIMIT: u128 = 0x100_0000;

/// The extra bits a quotient's significand is widened by before it is
/// rounded: enough that at least two bits fall below the kept ones.
pub const QUOTIENT_SHIFT: u128 = 0x4_0000_0000_0000;

/// Rounds `q` (already below 2^24) to nearest, ties to even, given the first
/// dropped bit `guard` and whether any bit after it was set (`sticky`).
pub open spec fn round_even(q: nat, guard: bool, sticky: bool, e: int) -> (nat, int) {
    if guard && (sticky || q % 2 == 1) {
        if q + 1 == 0x100_0000 { (0x80_0000, e + 1) } else { (q + 1, e) }
    } else {
        (q, e)
    }
}

/// The binary32 value nearest to `(q + f) * 2^e`, where the fraction `f` is
/// described by `guard` (its first bit) and `sticky` (any bit after it).
pub open spec fn normalize(q: nat, guard: bool, sticky: bool, e: int) -> (nat, int)
    decreases q,
{
    if q < 0x100_0000 {
        round_even(q, guard, sticky, e)
    } else {
        normalize(q / 2, q % 2 == 1, sticky || guard, e + 1)
    }
}

/// `n as f32`.
pub open spec fn from_u32(n: u32) -> (nat, int) {
    normalize(n as nat, false, false, 0)
}

/// `a / b` in binary32, for `b` not zero.
pub open spec fn quotient(a: (nat, int), b: (nat, int)) -> (nat, int) {
    let wide = a.0 * (QUOTIENT_SHIFT as nat);
    normalize(wide / b.0, false, wide % b.0 != 0, a.1 - b.1 - 50)
}

/// `a * b` in binary32.
pub open spec fn product(a: (nat, int), b: (nat, int)) -> (nat, int) {
    normalize(a.0 * b.0, false, false, a.1 + b.1)
}

pub open spec fn abs(e: int) -> nat {
    if e >= 0 { e as nat } else { (-e) as nat }
}

/// `(m * 2^e) as u32`: truncated toward zero, saturating at `u32::MAX`.
pub open spec fn to_u32_sat(m: nat, e: int) -> u32
    decreases abs(e),
{
    if e > 0 {
        if m * 2 > u32::MAX { u32::MAX } else { to_u32_sat(m * 2, e - 1) }
    } else if e < 0 {
        to_u32_sat(m / 2, e + 1)
    } else if m > u32::MAX {
        u32::MAX
    } else {
        m as u32
    }
}

/// `(a as f32 * (num as f32 / den as f32)) as u32`.
pub open spec fn scaled_f32(a: u32, num: u32, den: u32) -> u32 {
    let r = product(from_u32(a), quotient(from_u32(num), from_u32(den)));
    to_u32_sat(r.0, r.1)
}

proof fn lemma_normalize_positive(q: nat, guard: bool, sticky: bool, e: int)
    requires
        q > 0,
    ensures
        normalize(q, guard, sticky, e).0 > 0,
    decreases q,
{
    if q >= 0x100_0000 {
        lemma_normalize_positive(q / 2, q % 2 == 1, sticky || guard, e + 1);
    }
}

fn normalize_exec(q: u128, guard: bool, sticky: bool, e: i128) -> (r: (u128, i128))
    requires
        q < 0x1_0000_0000_0000_0000_0000,
        -0x10_0000_0000_0000_0000_0000_0000 < e < 0x10_0000_0000_0000_0000_0000_0000,
    ensures
        (r.0 as nat, r.1 as int) == normalize(q as nat, guard, sticky, e as int),
        r.0 < SIGNIFICAND_LIMIT,
        e <= r.1 <= e + q + 1,
{
    let mut m: u128 = q;
    let mut g: bool = guard;
    let mut s: bool = sticky;
    let mut x: i128 = e;
    while m >= SIGNIFICAND_LIMIT
        invariant
            normalize(m as nat, g, s, x as int) == normalize(q as nat, guard, sticky, e as int),
            m <= q,
            e as int <= x as int <= e as int + (q as int - m as int),
            q < 0x1_0000_0000_0000_0000_0000,
            -0x10_0000_0000_0000_0000_0000_0000 < e < 0x10_0000_0000_0000_0000_0000_0000,
        decreases m,
    {
        s = s || g;
        g = m % 2 == 1;
        m = m / 2;
        x = x + 1;
    }
    if g && (s || m % 2 == 1) {
        if m + 1 == SIGNIFICAND_LIMIT {
            (0x80_0000, x + 1)
        } else {
            (m + 1, x)
        }
    } else {
        (m, x)
    }
}

fn to_u32_exec(m: u128, e: i128) -> (r: u32)
    requires
        m < SIGNIFICAND_LIMIT,
    ensures
        r == to_u32_sat(m as nat, e as int),
{
    let mut v: u128 = m;
    let mut x: i128 = e;
    while x != 0
        invariant
            v <= u32::MAX,
            abs(x as int) <= abs(e as int),
            to_u32_sat(v as nat, x as int) == to_u32_sat(m as nat, e as int),
        decreases abs(x as int),
    {
        if x > 0 {
            if v * 2 > u32::MAX as u128 {
                return u32::MAX;
            }
            v = v * 2;
            x = x - 1;
        } else {
            v = v / 2;
            x = x + 1;
        }
    }
    v as u32
}

/// Computes `(a as f32 * (num as f32 / den as f32)) as u32` exactly as
/// binary32 arithmetic does, for `den` not zero.
pub fn scale_f32(a: u32, num: u32, den: u32) -> (r: u32)
    requires
        den > 0,
    ensures
        r == scaled_f32(a, num, den),
{
    let fa = normalize_exec(a as u128, false, false, 0);
    let fnum = normalize_exec(num as u128, false, false, 0);
    let fden = normalize_exec(den as u128, false, false, 0);
    proof {
        lemma_normalize_positive(den as nat, false, false, 0);
    }
    assert(fnum.0 * QUOTIENT_SHIFT < 0x1_0000_0000_0000_0000_0000) by (nonlinear_arith)
        requires
            fnum.0 < SIGNIFICAND_LIMIT,
    ;
    let wide: u128 = fnum.0 * QUOTIENT_SHIFT;
    let ratio = normalize_exec(wide / fden.0, false, wide % fden.0 != 0, fnum.1 - fden.1 - 50);
    assert(fa.0 * ratio.0 < 0x1_0000_0000_0000_0000_0000) by (nonlinear_arith)
        requires
            fa.0 < SIGNIFICAND_LIMIT,
            ratio.0 < SIGNIFICAND_LIMIT,
    ;
    let prod = normalize_exec(fa.0 * ratio.0, false, false, fa.1 + ratio.1);
    to_u32_exec(prod.0, prod.1)
}

} // verus!
