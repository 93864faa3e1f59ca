//! Fixed-point scalar arithmetic for the color pipeline.
//!
//! Channel values and slider parameters are carried as signed 64-bit
//! integers scaled by `FP_ONE` (so `FP_ONE` represents 1.0). All operations
//! round toward negative infinity, and the pipeline keeps intermediate
//! channel values inside `[-FP_WORK_MAX, FP_WORK_MAX]`.

use vstd::prelude::*;

verus! {

/// The fixed-point representation of 1.0.
pub const FP_ONE: i64 = 4096;

/// Half of `FP_ONE`: the 0.5 pivot used by contrast and the tonal masks.
pub const FP_HALF: i64 = 2048;

/// Working-range bound for intermediate channel values (512.0).
pub const FP_WORK_MAX: i64 = 0x20_0000;

/// One fifth of `FP_ONE`, rounded down: the 0.2 tint weight.
pub const FP_FIFTH: i64 = 819;

/// One tenth of `FP_ONE`, rounded up: the 0.1 whites/blacks step.
pub const FP_TENTH: i64 = 410;

/// Clamp `v` into `[lo, hi]`.
pub open spec fn sp_clamp(v: int, lo: int, hi: int) -> int {
    if v < lo {
        lo
    } else if v > hi {
        hi
    } else {
        v
    }
}

/// Clamp `v` into `[lo, hi]`.
pub fn clamp64(v: i64, lo: i64, hi: i64) -> (r: i64)
    requires
        lo <= hi,
    ensures
        r == sp_clamp(v as int, lo as int, hi as int),
{
    if v < lo {
        lo
    } else if v > hi {
        hi
    } else {
        v
    }
}

/// Floor division by a positive divisor keeps the quotient between the
/// dividend and zero.
pub proof fn lemma_div_stays_bounded(p: int, b: int)
    requires
        1 <= b,
    ensures
        p >= 0 ==> 0 <= p / b <= p,
        p < 0 ==> p <= p / b <= 0,
{
    if p >= 0 {
        vstd::arithmetic::div_mod::lemma_div_pos_is_pos(p, b);
        vstd::arithmetic::div_mod::lemma_div_nonincreasing(p, b);
    } else {
        vstd::arithmetic::div_mod::lemma_fundamental_div_mod(p, b);
        vstd::arithmetic::div_mod::lemma_mod_division_less_than_divisor(p, b);
        let q = p / b;
        let r = p % b;
        assert(q >= p && q <= 0) by (nonlinear_arith)
            requires
                p == b * q + r,
                0 <= r < b,
                1 <= b,
                p < 0,
        ;
    }
}

/// The fixed-point product `a * b`, scaled back down (floor).
pub open spec fn sp_fpmul(a: int, b: int) -> int {
    (a * b) / (FP_ONE as int)
}

/// Fixed-point multiply. Operand bounds keep the 128-bit-free product inside
/// `i64`.
pub fn fp_mul(a: i64, b: i64) -> (r: i64)
    requires
        -0x4_0000_0000 <= a <= 0x4_0000_0000,
        -0x400_0000 <= b <= 0x400_0000,
    ensures
        r == sp_fpmul(a as int, b as int),
{
    proof {
        assert((a as int) * (b as int) <= 0x4_0000_0000 * 0x400_0000 && (a as int) * (b as int)
            >= -(0x4_0000_0000 * 0x400_0000)) by (nonlinear_arith)
            requires
                -0x4_0000_0000 <= a <= 0x4_0000_0000,
                -0x400_0000 <= b <= 0x400_0000,
        ;
    }
    let p: i64 = a * b;
    proof {
        lemma_div_stays_bounded(p as int, FP_ONE as int);
    }
    let q = p.checked_div_euclid(FP_ONE);
    q.unwrap()
}

/// Saturate a value into the pipeline's working range.
pub open spec fn sp_sat(v: int) -> int {
    sp_clamp(v, -(FP_WORK_MAX as int), FP_WORK_MAX as int)
}

/// Saturate a value into the pipeline's working range.
pub fn sat64(v: i64) -> (r: i64)
    ensures
        r == sp_sat(v as int),
        -FP_WORK_MAX <= r <= FP_WORK_MAX,
{
    clamp64(v, -FP_WORK_MAX, FP_WORK_MAX)
}

/// Fixed-point multiply, saturated into the working range.
pub open spec fn sp_fpmul_sat(a: int, b: int) -> int {
    sp_sat(sp_fpmul(a, b))
}

/// Fixed-point multiply, saturated into the working range.
pub fn fp_mul_sat(a: i64, b: i64) -> (r: i64)
    requires
        -0x4_0000_0000 <= a <= 0x4_0000_0000,
        -0x400_0000 <= b <= 0x400_0000,
    ensures
        r == sp_fpmul_sat(a as int, b as int),
        -FP_WORK_MAX <= r <= FP_WORK_MAX,
{
    sat64(fp_mul(a, b))
}

/// Saturated multiplication by zero yields zero.
pub proof fn lemma_fpmul_sat_zero_left(b: int)
    ensures
        sp_fpmul_sat(0, b) == 0,
{
    assert(0 * b == 0) by (nonlinear_arith);
    vstd::arithmetic::div_mod::lemma_div_of0(FP_ONE as int);
}

/// Saturated multiplication by `FP_ONE` is exact inside the working range.
pub proof fn lemma_fpmul_sat_one(a: int)
    requires
        -(FP_WORK_MAX as int) <= a <= FP_WORK_MAX as int,
    ensures
        sp_fpmul_sat(a, FP_ONE as int) == a,
{
    lemma_fpmul_one(a);
}

/// Magnitude bound for a fixed-point product, from magnitude bounds on the
/// factors; the extra unit absorbs floor rounding of negative products.
pub proof fn lemma_fpmul_abs_bound(a: int, b: int, aa: int, bb: int)
    requires
        -aa <= a <= aa,
        -bb <= b <= bb,
        0 <= aa,
        0 <= bb,
    ensures
        -((aa * bb) / (FP_ONE as int)) - 1 <= sp_fpmul(a, b) <= (aa * bb) / (FP_ONE as int),
{
    let s = FP_ONE as int;
    assert(-(aa * bb) <= a * b <= aa * bb) by (nonlinear_arith)
        requires
            -aa <= a <= aa,
            -bb <= b <= bb,
            0 <= aa,
            0 <= bb,
    ;
    vstd::arithmetic::div_mod::lemma_div_is_ordered(a * b, aa * bb, s);
    vstd::arithmetic::div_mod::lemma_div_is_ordered(-(aa * bb), a * b, s);
    let x = aa * bb;
    vstd::arithmetic::div_mod::lemma_fundamental_div_mod(x, s);
    vstd::arithmetic::div_mod::lemma_mod_division_less_than_divisor(x, s);
    let q = x / s;
    let r = x % s;
    if r == 0 {
        vstd::arithmetic::div_mod::lemma_fundamental_div_mod_converse(-x, s, -q, 0);
    } else {
        vstd::arithmetic::div_mod::lemma_fundamental_div_mod_converse(-x, s, -q - 1, s - r);
    }
}

/// The fixed-point quotient `a / b` (floor), for a positive divisor.
pub open spec fn sp_fpdiv(a: int, b: int) -> int {
    (a * (FP_ONE as int)) / b
}

/// Fixed-point divide by a positive divisor.
pub fn fp_div(a: i64, b: i64) -> (r: i64)
    requires
        -0x40_0000_0000 <= a <= 0x40_0000_0000,
        1 <= b,
    ensures
        r == sp_fpdiv(a as int, b as int),
{
    let p: i64 = a * FP_ONE;
    proof {
        lemma_div_stays_bounded(p as int, b as int);
    }
    let q = p.checked_div_euclid(b);
    q.unwrap()
}

/// A channel byte as a fixed-point value in `[0, FP_ONE]`.
pub open spec fn sp_from_byte(p: int) -> int {
    (p * (FP_ONE as int)) / 255
}

/// Convert a channel byte to fixed point.
pub fn byte_to_fp(p: u8) -> (r: i64)
    ensures
        r == sp_from_byte(p as int),
        0 <= r <= FP_ONE,
{
    proof {
        vstd::arithmetic::div_mod::lemma_div_pos_is_pos((p as int) * (FP_ONE as int), 255);
        vstd::arithmetic::div_mod::lemma_div_is_ordered(
            (p as int) * (FP_ONE as int),
            255 * (FP_ONE as int),
            255,
        );
        vstd::arithmetic::div_mod::lemma_div_by_multiple(FP_ONE as int, 255);
    }
    ((p as i64) * FP_ONE) / 255
}

/// A clamped fixed-point channel back as a byte, rounding to nearest.
pub open spec fn sp_to_byte(c: int) -> int {
    (c * 255 + (FP_HALF as int)) / (FP_ONE as int)
}

/// Convert a fixed-point channel in `[0, FP_ONE]` back to a byte.
pub fn fp_to_byte(c: i64) -> (r: u8)
    requires
        0 <= c <= FP_ONE,
    ensures
        r == sp_to_byte(c as int),
{
    proof {
        vstd::arithmetic::div_mod::lemma_div_pos_is_pos(
            (c as int) * 255 + (FP_HALF as int),
            FP_ONE as int,
        );
        vstd::arithmetic::div_mod::lemma_div_is_ordered(
            (c as int) * 255 + (FP_HALF as int),
            (FP_ONE as int) * 255 + (FP_HALF as int),
            FP_ONE as int,
        );
    }
    ((c * 255 + FP_HALF) / FP_ONE) as u8
}

/// Byte-to-fixed-point conversion round-trips exactly.
pub proof fn lemma_byte_round_trip(p: int)
    requires
        0 <= p <= 255,
    ensures
        sp_to_byte(sp_from_byte(p)) == p,
{
    let s = FP_ONE as int;
    let c = (p * s) / 255;
    vstd::arithmetic::div_mod::lemma_fundamental_div_mod(p * s, 255);
    vstd::arithmetic::div_mod::lemma_mod_division_less_than_divisor(p * s, 255);
    let r = (p * s) % 255;
    assert(c * 255 == p * s - r) by (nonlinear_arith)
        requires
            p * s == 255 * c + r,
    ;
    assert(c * 255 + (FP_HALF as int) == p * s + (FP_HALF as int) - r);
    assert((p * s + (FP_HALF as int) - r) / s == p) by {
        vstd::arithmetic::div_mod::lemma_fundamental_div_mod_converse(
            p * s + (FP_HALF as int) - r,
            s,
            p,
            (FP_HALF as int) - r,
        );
    }
}

/// Multiplying by `FP_ONE` is exact.
pub proof fn lemma_fpmul_one(a: int)
    ensures
        sp_fpmul(a, FP_ONE as int) == a,
{
    vstd::arithmetic::div_mod::lemma_div_multiples_vanish(a, FP_ONE as int);
}

/// Quadratic coefficient table for `2^x` on `[0, 1)`: the approximation is
/// `1 + x*(C1 + x*C2)` with `C1 + C2 == FP_ONE`, exact at both endpoints.
pub const EXP2_C1: i64 = 2689;

/// See `EXP2_C1`.
pub const EXP2_C2: i64 = 1407;

/// Largest exposure magnitude the engine accepts, in fixed-point EV (10 EV).
pub const EV_ABS_MAX: i64 = 40960;

/// `2^f` for a fractional exponent `f` in `[0, FP_ONE]`, by the quadratic
/// approximation.
pub open spec fn sp_exp2_frac(f: int) -> int {
    (FP_ONE as int) + (f * ((EXP2_C1 as int) + (f * (EXP2_C2 as int)) / (FP_ONE as int))) / (
    FP_ONE as int)
}

proof fn lemma_exp2_frac_bounds(f: int)
    requires
        0 <= f <= FP_ONE,
    ensures
        (FP_ONE as int) <= sp_exp2_frac(f) <= 2 * (FP_ONE as int),
{
    let s = FP_ONE as int;
    vstd::arithmetic::div_mod::lemma_div_pos_is_pos(f * (EXP2_C2 as int), s);
    assert(f * (EXP2_C2 as int) <= s * (EXP2_C2 as int)) by (nonlinear_arith)
        requires
            0 <= f <= s,
            EXP2_C2 > 0,
    ;
    vstd::arithmetic::div_mod::lemma_div_is_ordered(f * (EXP2_C2 as int), s * (EXP2_C2 as int), s);
    vstd::arithmetic::div_mod::lemma_div_multiples_vanish(EXP2_C2 as int, s);
    let mid = (EXP2_C1 as int) + (f * (EXP2_C2 as int)) / s;
    assert((EXP2_C1 as int) <= mid <= s);
    assert(0 <= f * mid <= s * s) by (nonlinear_arith)
        requires
            0 <= f <= s,
            0 <= mid <= s,
    ;
    vstd::arithmetic::div_mod::lemma_div_pos_is_pos(f * mid, s);
    vstd::arithmetic::div_mod::lemma_div_is_ordered(f * mid, s * s, s);
    vstd::arithmetic::div_mod::lemma_div_multiples_vanish(s, s);
}

/// `2^ev` in fixed point: integer part by powers of two, fractional part by
/// the quadratic approximation.
pub open spec fn sp_exp2(ev: int) -> int {
    let s = FP_ONE as int;
    let k = ev / s;
    let f = ev % s;
    let frac = sp_exp2_frac(f);
    if k >= 0 {
        frac * (vstd::arithmetic::power2::pow2(k as nat) as int)
    } else {
        frac / (vstd::arithmetic::power2::pow2((-k) as nat) as int)
    }
}

/// `2^0 == 1` in fixed point: a zero exposure slider leaves channels alone.
pub proof fn lemma_exp2_zero()
    ensures
        sp_exp2(0) == FP_ONE,
{
    let s = FP_ONE as int;
    vstd::arithmetic::power2::lemma2_to64();
    vstd::arithmetic::div_mod::lemma_div_of0(s);
    vstd::arithmetic::div_mod::lemma_fundamental_div_mod(0, s);
    assert(0int % s == 0);
    assert(sp_exp2_frac(0) == s);
    assert(s * (vstd::arithmetic::power2::pow2(0) as int) == s) by (nonlinear_arith)
        requires
            vstd::arithmetic::power2::pow2(0) == 1,
    ;
}

/// Compute `2^ev` in fixed point for `ev` in `[-EV_ABS_MAX, EV_ABS_MAX]`.
pub fn exp2_fp(ev: i64) -> (r: i64)
    requires
        -EV_ABS_MAX <= ev <= EV_ABS_MAX,
    ensures
        r == sp_exp2(ev as int),
        1 <= r <= 0x80_0000,
{
    proof {
        lemma_div_stays_bounded(ev as int, FP_ONE as int);
        vstd::arithmetic::div_mod::lemma_div_is_ordered(ev as int, EV_ABS_MAX as int, FP_ONE as int);
        vstd::arithmetic::div_mod::lemma_div_is_ordered(
            -(EV_ABS_MAX as int),
            ev as int,
            FP_ONE as int,
        );
        vstd::arithmetic::div_mod::lemma_div_multiples_vanish(10, FP_ONE as int);
        vstd::arithmetic::div_mod::lemma_div_multiples_vanish(-10, FP_ONE as int);
        assert((EV_ABS_MAX as int) / (FP_ONE as int) == 10);
        assert((-(EV_ABS_MAX as int)) / (FP_ONE as int) == -10);
    }
    let k: i64 = ev.checked_div_euclid(FP_ONE).unwrap();
    proof {
        vstd::arithmetic::div_mod::lemma_fundamental_div_mod(ev as int, FP_ONE as int);
        vstd::arithmetic::div_mod::lemma_mod_division_less_than_divisor(ev as int, FP_ONE as int);
    }
    let f: i64 = ev - k * FP_ONE;
    proof {
        lemma_exp2_frac_bounds(f as int);
        vstd::arithmetic::div_mod::lemma_div_pos_is_pos(f * (EXP2_C2 as int), FP_ONE as int);
        assert((f as int) * (EXP2_C2 as int) <= (FP_ONE as int) * (EXP2_C2 as int))
            by (nonlinear_arith)
            requires
                0 <= f <= FP_ONE,
        ;
        vstd::arithmetic::div_mod::lemma_div_is_ordered(
            (f as int) * (EXP2_C2 as int),
            (FP_ONE as int) * (EXP2_C2 as int),
            FP_ONE as int,
        );
        vstd::arithmetic::div_mod::lemma_div_multiples_vanish(EXP2_C2 as int, FP_ONE as int);
    }
    let inner: i64 = (f * EXP2_C2) / FP_ONE;
    let mid: i64 = EXP2_C1 + inner;
    proof {
        assert(0 <= (f as int) * (mid as int) <= (FP_ONE as int) * (FP_ONE as int))
            by (nonlinear_arith)
            requires
                0 <= f <= FP_ONE,
                0 <= mid <= FP_ONE,
        ;
        vstd::arithmetic::div_mod::lemma_div_pos_is_pos((f as int) * (mid as int), FP_ONE as int);
        vstd::arithmetic::div_mod::lemma_div_is_ordered(
            (f as int) * (mid as int),
            (FP_ONE as int) * (FP_ONE as int),
            FP_ONE as int,
        );
        vstd::arithmetic::div_mod::lemma_div_multiples_vanish(FP_ONE as int, FP_ONE as int);
    }
    let frac: i64 = FP_ONE + (f * mid) / FP_ONE;
    let kabs: i64 = if k >= 0 {
        k
    } else {
        -k
    };
    let mut p: i64 = 1;
    let mut i: i64 = 0;
    proof {
        vstd::arithmetic::power2::lemma2_to64();
    }
    while i < kabs
        invariant
            0 <= i <= kabs <= 10,
            p == vstd::arithmetic::power2::pow2(i as nat),
            p <= 1024,
        decreases kabs - i,
    {
        proof {
            vstd::arithmetic::power2::lemma2_to64();
            let ni = i as nat;
            vstd::arithmetic::power2::lemma_pow2_adds(ni, 1);
            assert(vstd::arithmetic::power2::pow2(ni + 1) == vstd::arithmetic::power2::pow2(ni)
                * 2);
            if ni + 1 < 10 {
                vstd::arithmetic::power2::lemma_pow2_strictly_increases(ni + 1, 10);
            }
            assert(vstd::arithmetic::power2::pow2(ni + 1) <= 1024);
        }
        p = p * 2;
        i = i + 1;
    }
    if k >= 0 {
        proof {
            assert((frac as int) * (p as int) <= 8192 * 1024 && (frac as int) * (p as int) >= frac)
                by (nonlinear_arith)
                requires
                    4096 <= frac <= 8192,
                    1 <= p <= 1024,
            ;
        }
        frac * p
    } else {
        proof {
            lemma_div_stays_bounded(frac as int, p as int);
            vstd::arithmetic::div_mod::lemma_div_is_ordered(4096, frac as int, p as int);
            vstd::arithmetic::div_mod::lemma_div_is_ordered_by_denominator(4096, p as int, 1024);
            vstd::arithmetic::div_mod::lemma_div_multiples_vanish(4, 1024);
            assert(4096int / 1024 == 4);
            vstd::arithmetic::div_mod::lemma_div_pos_is_pos(frac as int, p as int);
        }
        frac / p
    }
}

/// Hermite smoothstep of a fixed-point value in `[0, FP_ONE]`:
/// `3 m^2 - 2 m^3`, evaluated with floor rounding.
pub open spec fn sp_smoothstep(m: int) -> int {
    sp_fpmul(sp_fpmul(m, m), 3 * (FP_ONE as int) - 2 * m)
}

/// The smoothstep curve maps `[0, FP_ONE]` into `[0, FP_ONE]`.
pub proof fn lemma_smoothstep_range(m: int)
    requires
        0 <= m <= FP_ONE as int,
    ensures
        0 <= sp_smoothstep(m) <= FP_ONE as int,
        0 <= sp_fpmul(m, m) <= FP_ONE as int,
{
    let si = FP_ONE as int;
    let mi = m;
    assert(0 <= mi * mi <= si * si) by (nonlinear_arith)
        requires
            0 <= mi <= si,
            si == 4096,
    ;
    vstd::arithmetic::div_mod::lemma_div_pos_is_pos(mi * mi, si);
    vstd::arithmetic::div_mod::lemma_div_is_ordered(mi * mi, si * si, si);
    vstd::arithmetic::div_mod::lemma_div_multiples_vanish(si, si);
    let a = sp_fpmul(mi, mi);
    let c = 3 * si - 2 * mi;
    vstd::arithmetic::div_mod::lemma_fundamental_div_mod(mi * mi, si);
    vstd::arithmetic::div_mod::lemma_mod_division_less_than_divisor(mi * mi, si);
    assert(a * si <= mi * mi) by (nonlinear_arith)
        requires
            mi * mi == si * a + (mi * mi) % si,
            0 <= (mi * mi) % si,
    ;
    assert(si * si * si - mi * mi * (3 * si - 2 * mi) == (si - mi) * (si - mi) * (si + 2 * mi))
        by (nonlinear_arith);
    assert((si - mi) * (si - mi) * (si + 2 * mi) >= 0) by (nonlinear_arith)
        requires
            0 <= mi <= si,
    ;
    assert(a * c * si <= mi * mi * c) by (nonlinear_arith)
        requires
            a * si <= mi * mi,
            c >= 0,
    ;
    assert(a * c <= si * si) by (nonlinear_arith)
        requires
            a * c * si <= si * si * si,
            si > 0,
    ;
    vstd::arithmetic::div_mod::lemma_div_is_ordered(a * c, si * si, si);
    assert(a * c >= 0) by (nonlinear_arith)
        requires
            a >= 0,
            c >= 0,
    ;
    vstd::arithmetic::div_mod::lemma_div_pos_is_pos(a * c, si);
}

/// Evaluate the smoothstep curve used for mask feathering.
pub fn smoothstep_fp(m: i64) -> (r: i64)
    requires
        0 <= m <= FP_ONE,
    ensures
        r == sp_smoothstep(m as int),
        0 <= r <= FP_ONE,
{
    proof {
        lemma_smoothstep_range(m as int);
    }
    let mm = fp_mul(m, m);
    let cub: i64 = 3 * FP_ONE - 2 * m;
    fp_mul(mm, cub)
}

/// For a left factor within `[0, FP_ONE]` and a non-negative right factor,
/// the fixed-point product stays within `[0, right factor]`.
pub proof fn lemma_fpmul_le_right(a: int, b: int)
    requires
        0 <= a <= FP_ONE as int,
        0 <= b,
    ensures
        0 <= sp_fpmul(a, b) <= b,
{
    let s = FP_ONE as int;
    assert(0 <= a * b <= s * b) by (nonlinear_arith)
        requires
            0 <= a <= s,
            0 <= b,
    ;
    vstd::arithmetic::div_mod::lemma_div_pos_is_pos(a * b, s);
    vstd::arithmetic::div_mod::lemma_div_is_ordered(a * b, s * b, s);
    vstd::arithmetic::div_mod::lemma_div_multiples_vanish(b, s);
}

/// The luminance weight of the red channel (0.2126).
pub const LUMA_R: i64 = 871;

/// The luminance weight of the green channel (0.7152).
pub const LUMA_G: i64 = 2929;

/// The luminance weight of the blue channel (0.0722).
pub const LUMA_B: i64 = 296;

/// Rec. 709 luminance of a fixed-point RGB triple.
pub open spec fn sp_luma(r: int, g: int, b: int) -> int {
    ((LUMA_R as int) * r + (LUMA_G as int) * g + (LUMA_B as int) * b) / (FP_ONE as int)
}

/// Rec. 709 luminance, with the weights summing exactly to `FP_ONE`.
pub fn luma(r: i64, g: i64, b: i64) -> (l: i64)
    requires
        -FP_WORK_MAX <= r <= FP_WORK_MAX,
        -FP_WORK_MAX <= g <= FP_WORK_MAX,
        -FP_WORK_MAX <= b <= FP_WORK_MAX,
    ensures
        l == sp_luma(r as int, g as int, b as int),
        -FP_WORK_MAX <= l <= FP_WORK_MAX,
{
    proof {
        lemma_luma_bounds(r as int, g as int, b as int);
    }
    let num: i64 = LUMA_R * r + LUMA_G * g + LUMA_B * b;
    proof {
        lemma_div_stays_bounded(num as int, FP_ONE as int);
    }
    let q = num.checked_div_euclid(FP_ONE);
    q.unwrap()
}

proof fn lemma_luma_bounds(r: int, g: int, b: int)
    requires
        -FP_WORK_MAX <= r <= FP_WORK_MAX,
        -FP_WORK_MAX <= g <= FP_WORK_MAX,
        -FP_WORK_MAX <= b <= FP_WORK_MAX,
    ensures
        -(FP_WORK_MAX as int) * (FP_ONE as int) <= (LUMA_R as int) * r + (LUMA_G as int) * g + (
        LUMA_B as int) * b <= (FP_WORK_MAX as int) * (FP_ONE as int),
        -FP_WORK_MAX <= sp_luma(r, g, b) <= FP_WORK_MAX,
{
    let m = FP_WORK_MAX as int;
    let s = FP_ONE as int;
    assert((LUMA_R as int) * r <= (LUMA_R as int) * m && (LUMA_R as int) * r >= -((
    LUMA_R as int) * m)) by (nonlinear_arith)
        requires
            -m <= r <= m,
            m > 0,
    ;
    assert((LUMA_G as int) * g <= (LUMA_G as int) * m && (LUMA_G as int) * g >= -((
    LUMA_G as int) * m)) by (nonlinear_arith)
        requires
            -m <= g <= m,
            m > 0,
    ;
    assert((LUMA_B as int) * b <= (LUMA_B as int) * m && (LUMA_B as int) * b >= -((
    LUMA_B as int) * m)) by (nonlinear_arith)
        requires
            -m <= b <= m,
            m > 0,
    ;
    let num = (LUMA_R as int) * r + (LUMA_G as int) * g + (LUMA_B as int) * b;
    assert(-(m * s) <= num <= m * s);
    vstd::arithmetic::div_mod::lemma_div_is_ordered(num, m * s, s);
    vstd::arithmetic::div_mod::lemma_div_is_ordered(-(m * s), num, s);
    vstd::arithmetic::div_mod::lemma_div_multiples_vanish(m, s);
    vstd::arithmetic::div_mod::lemma_div_multiples_vanish(-m, s);
}

} // verus!
