//! Preview dimension policy: the supported band of requested dimensions and
//! aspect-preserving target sizes.

use vstd::prelude::*;

verus! {

/// Smallest dimension a preview request may resolve to.
pub const PREVIEW_MIN_DIM: u32 = 480;

/// Largest dimension a preview request may resolve to.
pub const PREVIEW_MAX_DIM: u32 = 3200;

/// Dimension masters are decoded at when a smaller preview is requested.
pub const PREVIEW_MASTER_BASE: u32 = 1920;

/// A requested dimension, clamped into the supported band.
pub open spec fn clamp_dim(d: int) -> int {
    if d < PREVIEW_MIN_DIM as int {
        PREVIEW_MIN_DIM as int
    } else if d > PREVIEW_MAX_DIM as int {
        PREVIEW_MAX_DIM as int
    } else {
        d
    }
}

/// Clamp a requested preview dimension into the supported band; this clamped
/// value is the only dimension ever used as a cache key.
pub fn normalize_dimension(dim: u32) -> (r: u32)
    ensures
        r == clamp_dim(dim as int),
{
    if dim < PREVIEW_MIN_DIM {
        PREVIEW_MIN_DIM
    } else if dim > PREVIEW_MAX_DIM {
        PREVIEW_MAX_DIM
    } else {
        dim
    }
}

/// Clamping a dimension is idempotent.
pub proof fn lemma_clamp_idempotent(d: int)
    ensures
        clamp_dim(clamp_dim(d)) == clamp_dim(d),
{
}

/// The shorter output side when the longer one is mapped to `max_dimension`:
/// the proportionally scaled value, truncated, and at least 1.
pub open spec fn scaled_side(max_dimension: int, long: int, short: int) -> int {
    let q = (max_dimension * short) / long;
    if q < 1 {
        1
    } else {
        q
    }
}

/// The output size of an aspect-preserving resize: the larger source side maps
/// to `max_dimension`, the other side scales proportionally; degenerate
/// sources map to 1x1.
pub open spec fn spec_target_size(w: int, h: int, max_dimension: int) -> (int, int) {
    if w <= 0 || h <= 0 {
        (1, 1)
    } else if w >= h {
        (max_dimension, scaled_side(max_dimension, w, h))
    } else {
        (scaled_side(max_dimension, h, w), max_dimension)
    }
}

proof fn lemma_scaled_side_bounds(max_dimension: int, long: int, short: int)
    requires
        1 <= max_dimension,
        1 <= short <= long,
    ensures
        1 <= scaled_side(max_dimension, long, short) <= max_dimension,
{
    let p = max_dimension * short;
    assert(max_dimension * short <= max_dimension * long) by (nonlinear_arith)
        requires
            short <= long,
            1 <= max_dimension,
    ;
    vstd::arithmetic::div_mod::lemma_div_is_ordered(p, max_dimension * long, long);
    vstd::arithmetic::div_mod::lemma_div_by_multiple(max_dimension, long);
    assert(p / long <= max_dimension);
}

/// Compute the aspect-preserving output size for a resize toward
/// `max_dimension`.
pub fn target_size(w: u32, h: u32, max_dimension: u32) -> (r: (u32, u32))
    requires
        1 <= max_dimension <= PREVIEW_MAX_DIM,
    ensures
        (r.0 as int, r.1 as int) == spec_target_size(w as int, h as int, max_dimension as int),
        1 <= r.0 <= PREVIEW_MAX_DIM,
        1 <= r.1 <= PREVIEW_MAX_DIM,
{
    if w == 0 || h == 0 {
        return (1, 1);
    }
    if w >= h {
        proof {
            assert((max_dimension as int) * (h as int) < 0x1_0000_0000_0000) by (nonlinear_arith)
                requires
                    max_dimension <= 0x1_0000,
                    h < 0x1_0000_0000,
            ;
        }
        let num: u64 = (max_dimension as u64) * (h as u64);
        let q: u64 = num / (w as u64);
        proof {
            lemma_scaled_side_bounds(max_dimension as int, w as int, h as int);
        }
        let nh: u32 = if q < 1 {
            1
        } else {
            q as u32
        };
        (max_dimension, nh)
    } else {
        proof {
            assert((max_dimension as int) * (w as int) < 0x1_0000_0000_0000) by (nonlinear_arith)
                requires
                    max_dimension <= 0x1_0000,
                    w < 0x1_0000_0000,
            ;
        }
        let num: u64 = (max_dimension as u64) * (w as u64);
        let q: u64 = num / (h as u64);
        proof {
            lemma_scaled_side_bounds(max_dimension as int, h as int, w as int);
        }
        let nw: u32 = if q < 1 {
            1
        } else {
            q as u32
        };
        (nw, max_dimension)
    }
}

/// For a non-degenerate source, the larger output side of an
/// aspect-preserving resize equals the requested dimension.
pub proof fn lemma_target_size_larger_side(w: int, h: int, max_dimension: int)
    requires
        1 <= w,
        1 <= h,
        1 <= max_dimension,
    ensures
        ({
            let (nw, nh) = spec_target_size(w, h, max_dimension);
            &&& (if nw >= nh {
                nw
            } else {
                nh
            }) == max_dimension
            &&& 1 <= nw
            &&& 1 <= nh
        }),
{
    if w >= h {
        lemma_scaled_side_bounds(max_dimension, w, h);
    } else {
        lemma_scaled_side_bounds(max_dimension, h, w);
    }
}

/// The aspect ratio is preserved to within one source pixel: scaling the
/// shorter output side back up by the source ratio recovers the proportional
/// value `max_dimension * short` to within one `long` unit (truncation), so
/// the output box never distorts the source ratio by a full pixel, except
/// where the floor of the proportional value would be 0 and the side is held
/// at 1.
pub proof fn lemma_target_size_aspect(w: int, h: int, max_dimension: int)
    requires
        1 <= h <= w,
        1 <= max_dimension,
        w <= max_dimension * h,
    ensures
        ({
            let (nw, nh) = spec_target_size(w, h, max_dimension);
            &&& nw == max_dimension
            &&& nh * w <= max_dimension * h < (nh + 1) * w
        }),
{
    let q = (max_dimension * h) / w;
    vstd::arithmetic::div_mod::lemma_div_pos_is_pos(max_dimension * h, w);
    assert(w * 1 <= max_dimension * h);
    vstd::arithmetic::div_mod::lemma_div_is_ordered(w * 1, max_dimension * h, w);
    vstd::arithmetic::div_mod::lemma_div_by_multiple(1, w);
    assert(q >= 1);
    vstd::arithmetic::div_mod::lemma_fundamental_div_mod(max_dimension * h, w);
    vstd::arithmetic::div_mod::lemma_mod_division_less_than_divisor(max_dimension * h, w);
    assert(q * w <= max_dimension * h < (q + 1) * w) by (nonlinear_arith)
        requires
            max_dimension * h == w * q + (max_dimension * h) % w,
            0 <= (max_dimension * h) % w < w,
    ;
}

} // verus!
