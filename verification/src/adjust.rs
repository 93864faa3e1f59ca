//! The color-grading engine: global tonal adjustments and gradient-masked
//! local layers, applied per pixel in fixed point.
//!
//! Every pixel is processed independently; the formulas below are pure
//! functions of the input pixel and the recipe, in the exact step order the
//! contracts state.

use vstd::prelude::*;

use crate::fixed::{
    byte_to_fp, clamp64, exp2_fp, fp_div, fp_mul, fp_mul_sat, fp_to_byte, lemma_byte_round_trip,
    lemma_exp2_zero, lemma_fpmul_abs_bound, lemma_fpmul_le_right, lemma_fpmul_sat_one,
    lemma_fpmul_sat_zero_left, luma, sat64, smoothstep_fp, sp_clamp, sp_exp2, sp_from_byte,
    sp_fpdiv, sp_fpmul, sp_fpmul_sat, sp_luma, sp_sat, sp_smoothstep, sp_to_byte, FP_FIFTH,
    FP_HALF, FP_ONE, FP_TENTH, LUMA_B, LUMA_G, LUMA_R,
};
use crate::recipe::{AdjustmentLayer, GlobalAdjustments, LocalAdjustments, Mask};

verus! {

/// Lower and upper bounds on the inputs carry over to their luminance,
/// because the three weights are non-negative and sum exactly to `FP_ONE`.
pub proof fn lemma_luma_range(r: int, g: int, b: int, lo: int, hi: int)
    requires
        lo <= r <= hi,
        lo <= g <= hi,
        lo <= b <= hi,
    ensures
        lo <= sp_luma(r, g, b) <= hi,
{
    let s = FP_ONE as int;
    let num = (LUMA_R as int) * r + (LUMA_G as int) * g + (LUMA_B as int) * b;
    assert(num >= (LUMA_R as int) * lo + (LUMA_G as int) * lo + (LUMA_B as int) * lo && num <= (
    LUMA_R as int) * hi + (LUMA_G as int) * hi + (LUMA_B as int) * hi) by (nonlinear_arith)
        requires
            lo <= r <= hi,
            lo <= g <= hi,
            lo <= b <= hi,
            num == (LUMA_R as int) * r + (LUMA_G as int) * g + (LUMA_B as int) * b,
            LUMA_R == 871i64,
            LUMA_G == 2929i64,
            LUMA_B == 296i64,
    ;
    assert((LUMA_R as int) * lo + (LUMA_G as int) * lo + (LUMA_B as int) * lo == s * lo)
        by (nonlinear_arith)
        requires
            LUMA_R == 871i64,
            LUMA_G == 2929i64,
            LUMA_B == 296i64,
            s == 4096,
    ;
    assert((LUMA_R as int) * hi + (LUMA_G as int) * hi + (LUMA_B as int) * hi == s * hi)
        by (nonlinear_arith)
        requires
            LUMA_R == 871i64,
            LUMA_G == 2929i64,
            LUMA_B == 296i64,
            s == 4096,
    ;
    vstd::arithmetic::div_mod::lemma_div_is_ordered(s * lo, num, s);
    vstd::arithmetic::div_mod::lemma_div_is_ordered(num, s * hi, s);
    vstd::arithmetic::div_mod::lemma_div_multiples_vanish(lo, s);
    vstd::arithmetic::div_mod::lemma_div_multiples_vanish(hi, s);
}

/// A channel byte maps into `[0, FP_ONE]` in fixed point.
pub proof fn lemma_from_byte_bounds(p: int)
    requires
        0 <= p <= 255,
    ensures
        0 <= sp_from_byte(p) <= FP_ONE as int,
{
    let s = FP_ONE as int;
    vstd::arithmetic::div_mod::lemma_div_pos_is_pos(p * s, 255);
    assert(p * s <= 255 * s) by (nonlinear_arith)
        requires
            0 <= p <= 255,
            s > 0,
    ;
    vstd::arithmetic::div_mod::lemma_div_is_ordered(p * s, 255 * s, 255);
    vstd::arithmetic::div_mod::lemma_div_multiples_vanish(s, 255);
}

/// The global adjustment of one pixel, step by step in the fixed order:
/// exposure, white balance, highlights/shadows, whites/blacks, contrast,
/// then vibrance/saturation around the recomputed luminance, and a final
/// clamp to `[0, 1]`.
#[verifier::opaque]
pub open spec fn sp_global_px(g: GlobalAdjustments, pr: int, pg: int, pb: int) -> (int, int, int) {
    let s = FP_ONE as int;
    let h = FP_HALF as int;
    let em = sp_exp2(g.exposure_ev as int);
    let r0 = sp_from_byte(pr);
    let g0 = sp_from_byte(pg);
    let b0 = sp_from_byte(pb);
    let r1 = sp_fpmul_sat(r0, em);
    let g1 = sp_fpmul_sat(g0, em);
    let b1 = sp_fpmul_sat(b0, em);
    let tw = sp_fpmul_sat(g.temp as int, h);
    let tn = sp_fpmul_sat(g.tint as int, FP_FIFTH as int);
    let r2 = sp_fpmul_sat(r1, s + tw + tn);
    let g2 = sp_fpmul_sat(g1, s - tn);
    let b2 = sp_fpmul_sat(b1, s - tw + tn);
    let l = sp_luma(r2, g2, b2);
    let hm = if l > h {
        2 * (l - h)
    } else {
        0
    };
    let sm = if l < h {
        2 * (h - l)
    } else {
        0
    };
    let fh = s + sp_fpmul_sat(g.highlights as int, hm);
    let r3 = sp_fpmul_sat(r2, fh);
    let g3 = sp_fpmul_sat(g2, fh);
    let b3 = sp_fpmul_sat(b2, fh);
    let fs = s + sp_fpmul_sat(g.shadows as int, sm);
    let r4 = sp_fpmul_sat(r3, fs);
    let g4 = sp_fpmul_sat(g3, fs);
    let b4 = sp_fpmul_sat(b3, fs);
    let off = sp_fpmul_sat(g.whites as int, FP_TENTH as int) - sp_fpmul_sat(
        g.blacks as int,
        FP_TENTH as int,
    );
    let r5 = sp_sat(r4 + off);
    let g5 = sp_sat(g4 + off);
    let b5 = sp_sat(b4 + off);
    let fc = s + g.contrast as int;
    let r6 = sp_sat(sp_fpmul_sat(r5 - h, fc) + h);
    let g6 = sp_sat(sp_fpmul_sat(g5 - h, fc) + h);
    let b6 = sp_sat(sp_fpmul_sat(b5 - h, fc) + h);
    let l2 = sp_luma(r6, g6, b6);
    let dr = if r6 >= l2 {
        r6 - l2
    } else {
        l2 - r6
    };
    let dg = if g6 >= l2 {
        g6 - l2
    } else {
        l2 - g6
    };
    let db = if b6 >= l2 {
        b6 - l2
    } else {
        l2 - b6
    };
    let dev = (dr + dg + db) / 3;
    let vm = sp_clamp(s - dev, 0, s);
    let vf = s + sp_fpmul_sat(g.vibrance as int, vm);
    let sf = s + g.saturation as int;
    let cf = sp_fpmul_sat(sf, vf);
    let r7 = sp_sat(l2 + sp_fpmul_sat(r6 - l2, cf));
    let g7 = sp_sat(l2 + sp_fpmul_sat(g6 - l2, cf));
    let b7 = sp_sat(l2 + sp_fpmul_sat(b6 - l2, cf));
    (sp_to_byte(sp_clamp(r7, 0, s)), sp_to_byte(sp_clamp(g7, 0, s)), sp_to_byte(sp_clamp(b7, 0, s)))
}

/// Apply the global adjustments to one RGB pixel; alpha is untouched by the
/// global pass.
#[verifier::rlimit(60)]
pub fn apply_global_px(g: &GlobalAdjustments, pr: u8, pg: u8, pb: u8) -> (res: (u8, u8, u8))
    requires
        g.wf(),
    ensures
        (res.0 as int, res.1 as int, res.2 as int) == sp_global_px(*g, pr as int, pg as int,
        pb as int),
{
    proof {
        reveal(sp_global_px);
    }
    let s = FP_ONE;
    let h = FP_HALF;
    let em = exp2_fp(g.exposure_ev);
    let r0 = byte_to_fp(pr);
    let g0 = byte_to_fp(pg);
    let b0 = byte_to_fp(pb);
    let r1 = fp_mul_sat(r0, em);
    let g1 = fp_mul_sat(g0, em);
    let b1 = fp_mul_sat(b0, em);
    let tw = fp_mul_sat(g.temp, h);
    let tn = fp_mul_sat(g.tint, FP_FIFTH);
    let r2 = fp_mul_sat(r1, s + tw + tn);
    let g2 = fp_mul_sat(g1, s - tn);
    let b2 = fp_mul_sat(b1, s - tw + tn);
    let l = luma(r2, g2, b2);
    let hm: i64 = if l > h {
        2 * (l - h)
    } else {
        0
    };
    let sm: i64 = if l < h {
        2 * (h - l)
    } else {
        0
    };
    let fh = s + fp_mul_sat(g.highlights, hm);
    let r3 = fp_mul_sat(r2, fh);
    let g3 = fp_mul_sat(g2, fh);
    let b3 = fp_mul_sat(b2, fh);
    let fs = s + fp_mul_sat(g.shadows, sm);
    let r4 = fp_mul_sat(r3, fs);
    let g4 = fp_mul_sat(g3, fs);
    let b4 = fp_mul_sat(b3, fs);
    let off = fp_mul_sat(g.whites, FP_TENTH) - fp_mul_sat(g.blacks, FP_TENTH);
    let r5 = sat64(r4 + off);
    let g5 = sat64(g4 + off);
    let b5 = sat64(b4 + off);
    let fc = s + g.contrast;
    let r6 = sat64(fp_mul_sat(r5 - h, fc) + h);
    let g6 = sat64(fp_mul_sat(g5 - h, fc) + h);
    let b6 = sat64(fp_mul_sat(b5 - h, fc) + h);
    let l2 = luma(r6, g6, b6);
    let dr: i64 = if r6 >= l2 {
        r6 - l2
    } else {
        l2 - r6
    };
    let dg: i64 = if g6 >= l2 {
        g6 - l2
    } else {
        l2 - g6
    };
    let db: i64 = if b6 >= l2 {
        b6 - l2
    } else {
        l2 - b6
    };
    let dev: i64 = (dr + dg + db) / 3;
    let vm = clamp64(s - dev, 0, s);
    let vf = s + fp_mul_sat(g.vibrance, vm);
    let sf = s + g.saturation;
    let cf = fp_mul_sat(sf, vf);
    let r7 = sat64(l2 + fp_mul_sat(r6 - l2, cf));
    let g7 = sat64(l2 + fp_mul_sat(g6 - l2, cf));
    let b7 = sat64(l2 + fp_mul_sat(b6 - l2, cf));
    (fp_to_byte(clamp64(r7, 0, s)), fp_to_byte(clamp64(g7, 0, s)), fp_to_byte(clamp64(b7, 0, s)))
}

/// Identity globals leave every pixel exactly unchanged.
#[verifier::rlimit(100)]
pub proof fn lemma_global_px_identity(g: GlobalAdjustments, pr: int, pg: int, pb: int)
    requires
        g.sp_is_identity(),
        0 <= pr <= 255,
        0 <= pg <= 255,
        0 <= pb <= 255,
    ensures
        sp_global_px(g, pr, pg, pb) == (pr, pg, pb),
{
    reveal(sp_global_px);
    let s = FP_ONE as int;
    let h = FP_HALF as int;
    lemma_exp2_zero();
    lemma_from_byte_bounds(pr);
    lemma_from_byte_bounds(pg);
    lemma_from_byte_bounds(pb);
    let r0 = sp_from_byte(pr);
    let g0 = sp_from_byte(pg);
    let b0 = sp_from_byte(pb);
    lemma_fpmul_sat_one(r0);
    lemma_fpmul_sat_one(g0);
    lemma_fpmul_sat_one(b0);
    lemma_fpmul_sat_zero_left(h);
    lemma_fpmul_sat_zero_left(FP_FIFTH as int);
    lemma_luma_range(r0, g0, b0, 0, s);
    let l = sp_luma(r0, g0, b0);
    let hm = if l > h {
        2 * (l - h)
    } else {
        0
    };
    let sm = if l < h {
        2 * (h - l)
    } else {
        0
    };
    lemma_fpmul_sat_zero_left(hm);
    lemma_fpmul_sat_zero_left(sm);
    lemma_fpmul_sat_zero_left(FP_TENTH as int);
    lemma_fpmul_sat_one(r0 - h);
    lemma_fpmul_sat_one(g0 - h);
    lemma_fpmul_sat_one(b0 - h);
    let l2 = sp_luma(r0, g0, b0);
    let dr = if r0 >= l2 {
        r0 - l2
    } else {
        l2 - r0
    };
    let dg = if g0 >= l2 {
        g0 - l2
    } else {
        l2 - g0
    };
    let db = if b0 >= l2 {
        b0 - l2
    } else {
        l2 - b0
    };
    let dev = (dr + dg + db) / 3;
    vstd::arithmetic::div_mod::lemma_div_pos_is_pos(dr + dg + db, 3);
    let vm = sp_clamp(s - dev, 0, s);
    lemma_fpmul_sat_zero_left(vm);
    lemma_fpmul_sat_one(s);
    lemma_fpmul_sat_one(r0 - l2);
    lemma_fpmul_sat_one(g0 - l2);
    lemma_fpmul_sat_one(b0 - l2);
    lemma_byte_round_trip(pr);
    lemma_byte_round_trip(pg);
    lemma_byte_round_trip(pb);
}

/// The gradient-mask weight at normalized coordinates `(x, y)`: project onto
/// the gradient vector, clamp, smoothstep across the feather band around the
/// midpoint, invert if asked, and scale by the layer opacity.
pub open spec fn sp_mask_value(m: Mask, opacity: int, x: int, y: int) -> int {
    let s = FP_ONE as int;
    let h = FP_HALF as int;
    let f = if m.feather < 4 {
        4
    } else {
        m.feather as int
    };
    let dx = m.end_x - m.start_x;
    let dy = m.end_y - m.start_y;
    let ls = sp_fpmul(dx as int, dx as int) + sp_fpmul(dy as int, dy as int);
    let ls1 = if ls < 1 {
        1
    } else {
        ls
    };
    let px = x - m.start_x;
    let py = y - m.start_y;
    let num = sp_fpmul(px, dx as int) + sp_fpmul(py, dy as int);
    let t = sp_clamp(sp_fpdiv(num, ls1), 0, s);
    let half_f = f / 2;
    let e0 = h - half_f;
    let u = sp_clamp(sp_fpdiv(t - e0, 2 * half_f), 0, s);
    let m0 = sp_smoothstep(u);
    let m1 = if m.invert {
        s - m0
    } else {
        m0
    };
    sp_fpmul(m1, opacity)
}

/// Evaluate a gradient mask at normalized coordinates.
pub fn mask_value(m: &Mask, opacity: i64, x: i64, y: i64) -> (r: i64)
    requires
        m.wf(),
        0 <= opacity <= FP_ONE,
        0 <= x <= FP_ONE,
        0 <= y <= FP_ONE,
    ensures
        r == sp_mask_value(*m, opacity as int, x as int, y as int),
        0 <= r <= FP_ONE,
{
    let s = FP_ONE;
    let h = FP_HALF;
    let f: i64 = if m.feather < 4 {
        4
    } else {
        m.feather
    };
    let dx = m.end_x - m.start_x;
    let dy = m.end_y - m.start_y;
    proof {
        lemma_fpmul_abs_bound(dx as int, dx as int, 0x8000, 0x8000);
        lemma_fpmul_abs_bound(dy as int, dy as int, 0x8000, 0x8000);
        assert((dx as int) * (dx as int) >= 0) by (nonlinear_arith);
        assert((dy as int) * (dy as int) >= 0) by (nonlinear_arith);
        vstd::arithmetic::div_mod::lemma_div_pos_is_pos((dx as int) * (dx as int), FP_ONE as int);
        vstd::arithmetic::div_mod::lemma_div_pos_is_pos((dy as int) * (dy as int), FP_ONE as int);
    }
    let ls: i64 = fp_mul(dx, dx) + fp_mul(dy, dy);
    let ls1: i64 = if ls < 1 {
        1
    } else {
        ls
    };
    let px: i64 = x - m.start_x;
    let py: i64 = y - m.start_y;
    proof {
        lemma_fpmul_abs_bound(px as int, dx as int, 0x6000, 0x8000);
        lemma_fpmul_abs_bound(py as int, dy as int, 0x6000, 0x8000);
    }
    let num: i64 = fp_mul(px, dx) + fp_mul(py, dy);
    let t = clamp64(fp_div(num, ls1), 0, s);
    let half_f: i64 = f / 2;
    let e0: i64 = h - half_f;
    let u = clamp64(fp_div(t - e0, 2 * half_f), 0, s);
    let m0 = smoothstep_fp(u);
    let m1: i64 = if m.invert {
        s - m0
    } else {
        m0
    };
    proof {
        lemma_fpmul_le_right(m1 as int, opacity as int);
    }
    fp_mul(m1, opacity)
}

/// The reduced local adjustment of one pixel in fixed point: exposure, white
/// balance, then saturation around the luminance, clamped to `[0, 1]`.
pub open spec fn sp_local_color(a: LocalAdjustments, r0: int, g0: int, b0: int) -> (int, int, int) {
    let s = FP_ONE as int;
    let em = sp_exp2(a.exposure_ev as int);
    let r1 = sp_fpmul_sat(r0, em);
    let g1 = sp_fpmul_sat(g0, em);
    let b1 = sp_fpmul_sat(b0, em);
    let tw = sp_fpmul_sat(a.temp as int, FP_HALF as int);
    let tn = sp_fpmul_sat(a.tint as int, FP_FIFTH as int);
    let r2 = sp_fpmul_sat(r1, s + tw + tn);
    let g2 = sp_fpmul_sat(g1, s - tn);
    let b2 = sp_fpmul_sat(b1, s - tw + tn);
    let l = sp_luma(r2, g2, b2);
    let sf = s + a.saturation as int;
    let r3 = sp_sat(l + sp_fpmul_sat(r2 - l, sf));
    let g3 = sp_sat(l + sp_fpmul_sat(g2 - l, sf));
    let b3 = sp_sat(l + sp_fpmul_sat(b2 - l, sf));
    (sp_clamp(r3, 0, s), sp_clamp(g3, 0, s), sp_clamp(b3, 0, s))
}

/// Apply the reduced local adjustment to one fixed-point RGB triple.
pub fn local_color(a: &LocalAdjustments, r0: i64, g0: i64, b0: i64) -> (res: (i64, i64, i64))
    requires
        a.wf(),
        0 <= r0 <= FP_ONE,
        0 <= g0 <= FP_ONE,
        0 <= b0 <= FP_ONE,
    ensures
        (res.0 as int, res.1 as int, res.2 as int) == sp_local_color(*a, r0 as int, g0 as int,
        b0 as int),
        0 <= res.0 <= FP_ONE,
        0 <= res.1 <= FP_ONE,
        0 <= res.2 <= FP_ONE,
{
    let s = FP_ONE;
    let em = exp2_fp(a.exposure_ev);
    let r1 = fp_mul_sat(r0, em);
    let g1 = fp_mul_sat(g0, em);
    let b1 = fp_mul_sat(b0, em);
    let tw = fp_mul_sat(a.temp, FP_HALF);
    let tn = fp_mul_sat(a.tint, FP_FIFTH);
    let r2 = fp_mul_sat(r1, s + tw + tn);
    let g2 = fp_mul_sat(g1, s - tn);
    let b2 = fp_mul_sat(b1, s - tw + tn);
    let l = luma(r2, g2, b2);
    let sf = s + a.saturation;
    let r3 = sat64(l + fp_mul_sat(r2 - l, sf));
    let g3 = sat64(l + fp_mul_sat(g2 - l, sf));
    let b3 = sat64(l + fp_mul_sat(b2 - l, sf));
    (clamp64(r3, 0, s), clamp64(g3, 0, s), clamp64(b3, 0, s))
}

/// Linear blend of an original channel byte toward an adjusted fixed-point
/// channel, by a mask weight in `[0, 1]`.
pub open spec fn sp_blend_ch(p: int, adj: int, mv: int) -> int {
    let s = FP_ONE as int;
    let o = sp_from_byte(p);
    sp_to_byte(sp_fpmul(o, s - mv) + sp_fpmul(adj, mv))
}

/// Blend one channel byte toward its adjusted value.
pub fn blend_ch(p: u8, adj: i64, mv: i64) -> (r: u8)
    requires
        0 <= adj <= FP_ONE,
        0 <= mv <= FP_ONE,
    ensures
        r as int == sp_blend_ch(p as int, adj as int, mv as int),
{
    let o = byte_to_fp(p);
    proof {
        lemma_fpmul_le_right(o as int, (FP_ONE - mv) as int);
        lemma_fpmul_le_right(adj as int, mv as int);
    }
    let mixed: i64 = fp_mul(o, FP_ONE - mv) + fp_mul(adj, mv);
    fp_to_byte(mixed)
}

/// One pixel under one local layer: evaluate the mask; if it is zero the
/// pixel is untouched, otherwise blend toward the adjusted color.
#[verifier::opaque]
pub open spec fn sp_local_px(layer: AdjustmentLayer, x: int, y: int, pr: int, pg: int, pb: int) -> (
    int,
    int,
    int,
) {
    let mv = sp_mask_value(layer.mask, layer.opacity as int, x, y);
    if mv <= 0 {
        (pr, pg, pb)
    } else {
        let r0 = sp_from_byte(pr);
        let g0 = sp_from_byte(pg);
        let b0 = sp_from_byte(pb);
        let adj = sp_local_color(layer.adjustments, r0, g0, b0);
        (sp_blend_ch(pr, adj.0, mv), sp_blend_ch(pg, adj.1, mv), sp_blend_ch(pb, adj.2, mv))
    }
}

/// Apply one local layer to one RGB pixel at normalized coordinates.
pub fn apply_local_px(layer: &AdjustmentLayer, x: i64, y: i64, pr: u8, pg: u8, pb: u8) -> (res: (
    u8,
    u8,
    u8,
))
    requires
        layer.wf(),
        0 <= x <= FP_ONE,
        0 <= y <= FP_ONE,
    ensures
        (res.0 as int, res.1 as int, res.2 as int) == sp_local_px(*layer, x as int, y as int,
        pr as int, pg as int, pb as int),
{
    proof {
        reveal(sp_local_px);
    }
    let mv = mask_value(&layer.mask, layer.opacity, x, y);
    if mv <= 0 {
        (pr, pg, pb)
    } else {
        let r0 = byte_to_fp(pr);
        let g0 = byte_to_fp(pg);
        let b0 = byte_to_fp(pb);
        let adj = local_color(&layer.adjustments, r0, g0, b0);
        (blend_ch(pr, adj.0, mv), blend_ch(pg, adj.1, mv), blend_ch(pb, adj.2, mv))
    }
}

/// A left-to-right horizontal gradient with zero feather behaves as a step
/// at the midline: to the left of the transition band the mask is zero, to
/// the right it is the full opacity, and at the exact midpoint it is half.
pub proof fn lemma_step_mask(m: Mask, x: int, y: int)
    requires
        m.start_x == 0,
        m.start_y == FP_HALF,
        m.end_x == FP_ONE,
        m.end_y == FP_HALF,
        m.feather == 0,
        !m.invert,
        0 <= x <= FP_ONE as int,
        0 <= y <= FP_ONE as int,
    ensures
        x < 2046 ==> sp_mask_value(m, FP_ONE as int, x, y) == 0,
        x >= 2050 ==> sp_mask_value(m, FP_ONE as int, x, y) == FP_ONE as int,
        x == 2048 ==> sp_mask_value(m, FP_ONE as int, x, y) == FP_HALF as int,
{
    let s = FP_ONE as int;
    vstd::arithmetic::div_mod::lemma_div_multiples_vanish(s, s);
    vstd::arithmetic::div_mod::lemma_div_of0(s);
    let py = y - (FP_HALF as int);
    assert(py * 0 == 0) by (nonlinear_arith);
    assert(0 * 0 == 0) by (nonlinear_arith);
    crate::fixed::lemma_fpmul_one(x);
    vstd::arithmetic::div_mod::lemma_div_multiples_vanish(x, s);
    assert(sp_fpdiv(x, s) == x);
    vstd::arithmetic::div_mod::lemma_fundamental_div_mod_converse(4, 2, 2, 0);
    let d = x - 2046;
    assert(d * 4096 == 4 * (d * 1024)) by (nonlinear_arith);
    vstd::arithmetic::div_mod::lemma_fundamental_div_mod_converse(d * 4096, 4, d * 1024, 0);
    assert(sp_fpdiv(d, 4) == d * 1024);
    if x < 2046 {
        assert(d * 1024 < 0) by (nonlinear_arith)
            requires
                d < 0,
        ;
        assert(sp_clamp(d * 1024, 0, s) == 0);
        assert(sp_smoothstep(0) == 0) by {
            assert(0 * 0 == 0) by (nonlinear_arith);
            assert(0 * (3 * s - 2 * 0) == 0) by (nonlinear_arith);
            vstd::arithmetic::div_mod::lemma_div_of0(s);
        }
        assert(0 * s == 0) by (nonlinear_arith);
        assert(sp_mask_value(m, s, x, y) == 0);
    }
    if x >= 2050 {
        assert(d * 1024 >= 4096) by (nonlinear_arith)
            requires
                d >= 4,
        ;
        assert(sp_clamp(d * 1024, 0, s) == s);
        assert(sp_smoothstep(s) == s) by {
            vstd::arithmetic::div_mod::lemma_div_multiples_vanish(s, s);
            assert(sp_fpmul(s, s) == s);
            assert(3 * s - 2 * s == s);
        }
        assert(sp_mask_value(m, s, x, y) == s);
    }
    if x == 2048 {
        assert(sp_clamp(d * 1024, 0, s) == 2048);
        assert(sp_smoothstep(2048) == 2048) by {
            assert(2048int * 2048 == 4096 * 1024);
            vstd::arithmetic::div_mod::lemma_fundamental_div_mod_converse(2048int * 2048, 4096, 1024, 0);
            assert(sp_fpmul(2048, 2048) == 1024);
            assert(1024int * 8192 == 4096 * 2048);
            vstd::arithmetic::div_mod::lemma_fundamental_div_mod_converse(1024int * 8192, 4096, 2048, 0);
        }
        assert(2048int * 4096 == 4096 * 2048);
        vstd::arithmetic::div_mod::lemma_fundamental_div_mod_converse(2048int * 4096, 4096, 2048, 0);
        assert(sp_mask_value(m, s, x, y) == 2048);
    }
}

/// Under a zero-feather horizontal gradient at full opacity, pixels left of
/// the step keep their original bytes, and pixels right of the step take
/// the fully adjusted color.
pub proof fn lemma_step_layer_endpoints(
    layer: AdjustmentLayer,
    x: int,
    y: int,
    pr: int,
    pg: int,
    pb: int,
)
    requires
        layer.mask.start_x == 0,
        layer.mask.start_y == FP_HALF,
        layer.mask.end_x == FP_ONE,
        layer.mask.end_y == FP_HALF,
        layer.mask.feather == 0,
        !layer.mask.invert,
        layer.opacity == FP_ONE,
        0 <= x <= FP_ONE as int,
        0 <= y <= FP_ONE as int,
    ensures
        x < 2046 ==> sp_local_px(layer, x, y, pr, pg, pb) == (pr, pg, pb),
        x >= 2050 ==> sp_local_px(layer, x, y, pr, pg, pb) == ({
            let adj = sp_local_color(
                layer.adjustments,
                sp_from_byte(pr),
                sp_from_byte(pg),
                sp_from_byte(pb),
            );
            (sp_to_byte(adj.0), sp_to_byte(adj.1), sp_to_byte(adj.2))
        }),
{
    reveal(sp_local_px);
    lemma_step_mask(layer.mask, x, y);
    let s = FP_ONE as int;
    if x >= 2050 {
        let adj = sp_local_color(
            layer.adjustments,
            sp_from_byte(pr),
            sp_from_byte(pg),
            sp_from_byte(pb),
        );
        let o_r = sp_from_byte(pr);
        let o_g = sp_from_byte(pg);
        let o_b = sp_from_byte(pb);
        assert(o_r * 0 == 0 && o_g * 0 == 0 && o_b * 0 == 0) by (nonlinear_arith);
        vstd::arithmetic::div_mod::lemma_div_of0(s);
        crate::fixed::lemma_fpmul_one(adj.0);
        crate::fixed::lemma_fpmul_one(adj.1);
        crate::fixed::lemma_fpmul_one(adj.2);
    }
}

} // verus!
