//! Saturating integer arithmetic for layout units.
//!
//! All geometry is carried in `i64` units. Every arithmetic step the layout
//! engine takes saturates at the `i64` range instead of overflowing, and the
//! spec functions here state that clipping exactly, so the engine's contracts
//! are total over all inputs.

use vstd::prelude::*;

verus! {

/// Largest representable unit value.
pub open spec fn unit_max() -> int {
    i64::MAX as int
}

/// Smallest representable unit value.
pub open spec fn unit_min() -> int {
    i64::MIN as int
}

/// Clip a mathematical integer into the representable unit range.
pub open spec fn clip(x: int) -> int {
    if x > unit_max() {
        unit_max()
    } else if x < unit_min() {
        unit_min()
    } else {
        x
    }
}

/// Saturating addition: `clip(a + b)`.
pub open spec fn spec_sat_add(a: int, b: int) -> int {
    clip(a + b)
}

/// Saturating subtraction: `clip(a - b)`.
pub open spec fn spec_sat_sub(a: int, b: int) -> int {
    clip(a - b)
}

/// Saturating multiplication: `clip(a * b)`.
pub open spec fn spec_sat_mul(a: int, b: int) -> int {
    clip(a * b)
}

/// `clip(a * b / c)` for non-negative `a`, `b` and positive `c`.
pub open spec fn spec_mul_div(a: int, b: int, c: int) -> int
    recommends
        a >= 0,
        b >= 0,
        c > 0,
{
    clip((a * b) / c)
}

/// Halve, rounding the magnitude toward zero.
pub open spec fn spec_half(x: int) -> int {
    if x >= 0 {
        x / 2
    } else {
        -((-x) / 2)
    }
}

/// The larger of two values.
pub open spec fn spec_max(a: int, b: int) -> int {
    if a >= b {
        a
    } else {
        b
    }
}

/// The smaller of two values.
pub open spec fn spec_min(a: int, b: int) -> int {
    if a <= b {
        a
    } else {
        b
    }
}

pub fn sat_add(a: i64, b: i64) -> (r: i64)
    ensures
        r as int == spec_sat_add(a as int, b as int),
{
    let s: i128 = a as i128 + b as i128;
    if s > i64::MAX as i128 {
        i64::MAX
    } else if s < i64::MIN as i128 {
        i64::MIN
    } else {
        s as i64
    }
}

pub fn sat_sub(a: i64, b: i64) -> (r: i64)
    ensures
        r as int == spec_sat_sub(a as int, b as int),
{
    let s: i128 = a as i128 - b as i128;
    if s > i64::MAX as i128 {
        i64::MAX
    } else if s < i64::MIN as i128 {
        i64::MIN
    } else {
        s as i64
    }
}

pub fn sat_mul(a: i64, b: i64) -> (r: i64)
    ensures
        r as int == spec_sat_mul(a as int, b as int),
{
    proof {
        assert((i128::MIN as int) < (a as int) * (b as int) && (a as int) * (b as int) < (i128::MAX as int)) by (nonlinear_arith)
            requires
                (i64::MIN as int) <= (a as int) <= (i64::MAX as int),
                (i64::MIN as int) <= (b as int) <= (i64::MAX as int),
        ;
    }
    let s: i128 = a as i128 * b as i128;
    if s > i64::MAX as i128 {
        i64::MAX
    } else if s < i64::MIN as i128 {
        i64::MIN
    } else {
        s as i64
    }
}

pub fn mul_div(a: i64, b: i64, c: i64) -> (r: i64)
    requires
        a >= 0,
        b >= 0,
        c > 0,
    ensures
        r as int == spec_mul_div(a as int, b as int, c as int),
{
    proof {
        assert((a as int) * (b as int) < (u128::MAX as int)) by (nonlinear_arith)
            requires
                0 <= (a as int) <= (i64::MAX as int),
                0 <= (b as int) <= (i64::MAX as int),
        ;
    }
    let p: u128 = a as u128 * b as u128;
    let q: u128 = p / (c as u128);
    if q > i64::MAX as u128 {
        i64::MAX
    } else {
        q as i64
    }
}

pub fn half(x: i64) -> (r: i64)
    ensures
        r as int == spec_half(x as int),
{
    if x >= 0 {
        x / 2
    } else {
        let m: u64 = if x == i64::MIN {
            i64::MAX as u64 + 1
        } else {
            (-x) as u64
        };
        let h: u64 = m / 2;
        -(h as i64)
    }
}

pub fn max_i(a: i64, b: i64) -> (r: i64)
    ensures
        r as int == spec_max(a as int, b as int),
{
    if a >= b {
        a
    } else {
        b
    }
}

pub fn min_i(a: i64, b: i64) -> (r: i64)
    ensures
        r as int == spec_min(a as int, b as int),
{
    if a <= b {
        a
    } else {
        b
    }
}

/// Saturating addition as a unit value.
pub open spec fn sadd(a: i64, b: i64) -> i64 {
    spec_sat_add(a as int, b as int) as i64
}

/// Saturating subtraction as a unit value.
pub open spec fn ssub(a: i64, b: i64) -> i64 {
    spec_sat_sub(a as int, b as int) as i64
}

/// Saturating multiplication as a unit value.
pub open spec fn smul(a: i64, b: i64) -> i64 {
    spec_sat_mul(a as int, b as int) as i64
}

/// `a * b / c` as a unit value, for non-negative `a`, `b` and positive `c`.
pub open spec fn smuldiv(a: i64, b: i64, c: i64) -> i64 {
    spec_mul_div(a as int, b as int, c as int) as i64
}

/// Halving toward zero as a unit value.
pub open spec fn shalf(a: i64) -> i64 {
    spec_half(a as int) as i64
}

pub open spec fn smax(a: i64, b: i64) -> i64 {
    if a >= b {
        a
    } else {
        b
    }
}

pub open spec fn smin(a: i64, b: i64) -> i64 {
    if a <= b {
        a
    } else {
        b
    }
}

/// `p` percent of `base`, saturating; non-positive inputs give 0.
pub open spec fn spct(base: i64, p: i64) -> i64 {
    if base <= 0 || p <= 0 {
        0
    } else {
        smuldiv(base, p, 100)
    }
}

/// Clamp `v` into `[mn, mx]`, the lower bound winning.
pub open spec fn sclamp(v: i64, mn: i64, mx: i64) -> i64 {
    smax(smin(v, mx), mn)
}

pub fn e_sadd(a: i64, b: i64) -> (r: i64)
    ensures
        r == sadd(a, b),
{
    sat_add(a, b)
}

pub fn e_ssub(a: i64, b: i64) -> (r: i64)
    ensures
        r == ssub(a, b),
{
    sat_sub(a, b)
}

pub fn e_smul(a: i64, b: i64) -> (r: i64)
    ensures
        r == smul(a, b),
{
    sat_mul(a, b)
}

pub fn e_shalf(a: i64) -> (r: i64)
    ensures
        r == shalf(a),
{
    half(a)
}

pub fn e_smax(a: i64, b: i64) -> (r: i64)
    ensures
        r == smax(a, b),
{
    max_i(a, b)
}

pub fn e_smin(a: i64, b: i64) -> (r: i64)
    ensures
        r == smin(a, b),
{
    min_i(a, b)
}

pub fn e_spct(base: i64, p: i64) -> (r: i64)
    ensures
        r == spct(base, p),
{
    if base <= 0 || p <= 0 {
        0
    } else {
        mul_div(base, p, 100)
    }
}

pub fn e_sclamp(v: i64, mn: i64, mx: i64) -> (r: i64)
    ensures
        r == sclamp(v, mn, mx),
{
    max_i(min_i(v, mx), mn)
}

/// Integer division for non-negative `a` and positive `b`.
pub open spec fn sdivp(a: i64, b: i64) -> i64
    recommends
        a >= 0,
        b > 0,
{
    ((a as int) / (b as int)) as i64
}

pub fn e_sdivp(a: i64, b: i64) -> (r: i64)
    requires
        a >= 0,
        b > 0,
    ensures
        r == sdivp(a, b),
{
    let q: u64 = (a as u64) / (b as u64);
    q as i64
}

} // verus!
