//! Reconstruction of full RGB from a color-filter-array sample grid:
//! per-channel black/white normalization, then neighborhood-average infill
//! for the channels a pixel did not sample.

use vstd::prelude::*;

use crate::fixed::{clamp64, lemma_div_stays_bounded, sp_clamp, FP_ONE};
use crate::img::{lemma_rgba_len, ImageBuf, MAX_PIXELS, MAX_SIDE};

verus! {

/// A sensor sample grid: one sample and one color-plane index per pixel,
/// with per-channel black and white levels.
pub struct SensorGrid {
    pub width: u32,
    pub height: u32,
    pub samples: Vec<u16>,
    pub cfa: Vec<u8>,
    pub black_r: u16,
    pub black_g: u16,
    pub black_b: u16,
    pub white_r: u16,
    pub white_g: u16,
    pub white_b: u16,
}

/// The mathematical content of a sensor grid: what the demosaic formulas
/// are defined over.
pub ghost struct GridView {
    pub width: int,
    pub height: int,
    pub samples: Seq<u16>,
    pub cfa: Seq<u8>,
    pub black_r: int,
    pub black_g: int,
    pub black_b: int,
    pub white_r: int,
    pub white_g: int,
    pub white_b: int,
}

impl GridView {
    /// The black level of plane `c`.
    pub open spec fn sp_black(self, c: int) -> int {
        if c == 0 {
            self.black_r
        } else if c == 2 {
            self.black_b
        } else {
            self.black_g
        }
    }

    /// The white level of plane `c`.
    pub open spec fn sp_white(self, c: int) -> int {
        if c == 0 {
            self.white_r
        } else if c == 2 {
            self.white_b
        } else {
            self.white_g
        }
    }

    /// The color plane sampled at flat index `idx`: 0 red, 2 blue, anything
    /// else green.
    pub open spec fn sp_color(self, idx: int) -> int {
        if 0 <= idx < self.cfa.len() {
            if self.cfa[idx] == 0 {
                0
            } else if self.cfa[idx] == 2 {
                2
            } else {
                1
            }
        } else {
            1
        }
    }

    /// The raw sample at flat index `idx` (0 outside the grid).
    pub open spec fn sp_sample(self, idx: int) -> int {
        if 0 <= idx < self.samples.len() {
            self.samples[idx] as int
        } else {
            0
        }
    }
}

impl SensorGrid {
    /// Bounded dimensions and one plane index per pixel; sample reads are
    /// guarded, so a short sample vector reads as zeros.
    pub open spec fn wf(self) -> bool {
        &&& 1 <= self.width <= MAX_SIDE
        &&& 1 <= self.height <= MAX_SIDE
        &&& self.width * self.height <= MAX_PIXELS
        &&& self.cfa@.len() == self.width * self.height
    }

    /// The grid's mathematical content.
    pub open spec fn sp_view(self) -> GridView {
        GridView {
            width: self.width as int,
            height: self.height as int,
            samples: self.samples@,
            cfa: self.cfa@,
            black_r: self.black_r as int,
            black_g: self.black_g as int,
            black_b: self.black_b as int,
            white_r: self.white_r as int,
            white_g: self.white_g as int,
            white_b: self.white_b as int,
        }
    }
}

/// Normalize a sample to `[0, 1]` in fixed point against its plane's black
/// and white levels; a degenerate range yields 0.
pub open spec fn sp_normalize(val: int, black: int, white: int) -> int {
    if white <= black {
        0
    } else {
        sp_clamp(((val - black) * (FP_ONE as int)) / (white - black), 0, FP_ONE as int)
    }
}

/// Normalize a raw sample against its plane's levels.
pub fn normalize_sample(val: u16, black: u16, white: u16) -> (r: i64)
    ensures
        r == sp_normalize(val as int, black as int, white as int),
        0 <= r <= FP_ONE,
{
    if white <= black {
        return 0;
    }
    let num: i64 = ((val as i64) - (black as i64)) * FP_ONE;
    let den: i64 = (white as i64) - (black as i64);
    proof {
        lemma_div_stays_bounded(num as int, den as int);
    }
    let q = num.checked_div_euclid(den).unwrap();
    clamp64(q, 0, FP_ONE)
}

/// The normalized value plane `c` holds at `idx` before infill: the
/// normalized sample where the pixel samples `c`, else 0.
pub open spec fn sp_plane_val(g: GridView, c: int, idx: int) -> int {
    if g.sp_color(idx) == c {
        sp_normalize(g.sp_sample(idx), g.sp_black(c), g.sp_white(c))
    } else {
        0
    }
}

/// One neighbor's contribution to the infill at `(x, y)`: its normalized
/// value and a count of one if it lies in the grid and samples plane `c`.
pub open spec fn sp_nbr(g: GridView, c: int, nx: int, ny: int) -> (int, int) {
    if 0 <= nx < g.width && 0 <= ny < g.height && g.sp_color(ny * g.width + nx) == c {
        (sp_plane_val(g, c, ny * g.width + nx), 1)
    } else {
        (0, 0)
    }
}

/// The sum and count of sampled neighbors of `(x, y)` in plane `c`, over
/// the eight immediate neighbors.
pub open spec fn sp_nbr_sum(g: GridView, c: int, x: int, y: int) -> (int, int) {
    let a = sp_nbr(g, c, x - 1, y - 1);
    let b = sp_nbr(g, c, x, y - 1);
    let d = sp_nbr(g, c, x + 1, y - 1);
    let e = sp_nbr(g, c, x - 1, y);
    let f = sp_nbr(g, c, x + 1, y);
    let h = sp_nbr(g, c, x - 1, y + 1);
    let i = sp_nbr(g, c, x, y + 1);
    let j = sp_nbr(g, c, x + 1, y + 1);
    (
        a.0 + b.0 + d.0 + e.0 + f.0 + h.0 + i.0 + j.0,
        a.1 + b.1 + d.1 + e.1 + f.1 + h.1 + i.1 + j.1,
    )
}

/// The filled value of plane `c` at `(x, y)`: the pixel's own normalized
/// sample where it samples `c`, else the average of its sampled neighbors,
/// else 0.
pub open spec fn sp_fill(g: GridView, c: int, x: int, y: int) -> int {
    let idx = y * g.width + x;
    if g.sp_color(idx) == c {
        sp_plane_val(g, c, idx)
    } else {
        let sc = sp_nbr_sum(g, c, x, y);
        if sc.1 > 0 {
            sc.0 / sc.1
        } else {
            0
        }
    }
}

/// The output byte of plane `c` at `(x, y)`: the filled value scaled to
/// `[0, 255]`.
pub open spec fn sp_demosaic_byte(g: GridView, c: int, x: int, y: int) -> int {
    (sp_fill(g, c, x, y) * 255) / (FP_ONE as int)
}

/// A value in `[0, FP_ONE]` scales to a byte in `[0, 255]` by truncation.
pub proof fn lemma_scale_byte_bounds(v: int)
    requires
        0 <= v <= FP_ONE as int,
    ensures
        0 <= (v * 255) / (FP_ONE as int) <= 255,
{
    let s = FP_ONE as int;
    vstd::arithmetic::div_mod::lemma_div_pos_is_pos(v * 255, s);
    assert(v * 255 <= s * 255) by (nonlinear_arith)
        requires
            0 <= v <= s,
    ;
    vstd::arithmetic::div_mod::lemma_div_is_ordered(v * 255, s * 255, s);
    vstd::arithmetic::div_mod::lemma_div_multiples_vanish(255, s);
}

/// An average of values in `[0, FP_ONE]` stays in `[0, FP_ONE]`.
pub proof fn lemma_avg_bounds(sum: int, cnt: int)
    requires
        1 <= cnt,
        0 <= sum <= cnt * (FP_ONE as int),
    ensures
        0 <= sum / cnt <= FP_ONE as int,
{
    vstd::arithmetic::div_mod::lemma_div_pos_is_pos(sum, cnt);
    vstd::arithmetic::div_mod::lemma_div_is_ordered(sum, cnt * (FP_ONE as int), cnt);
    vstd::arithmetic::div_mod::lemma_div_multiples_vanish(FP_ONE as int, cnt);
}

/// A plane value before infill lies in `[0, FP_ONE]`.
pub proof fn lemma_plane_val_bounds(g: GridView, c: int, idx: int)
    ensures
        0 <= sp_plane_val(g, c, idx) <= FP_ONE as int,
{
}

/// A neighbor contribution is a value in `[0, FP_ONE]` with a count of 0 or
/// 1, and the value is zero whenever the count is.
pub proof fn lemma_nbr_bounds(g: GridView, c: int, nx: int, ny: int)
    ensures
        0 <= sp_nbr(g, c, nx, ny).0 <= sp_nbr(g, c, nx, ny).1 * (FP_ONE as int),
        0 <= sp_nbr(g, c, nx, ny).1 <= 1,
{
    if 0 <= nx < g.width && 0 <= ny < g.height && g.sp_color(ny * g.width + nx) == c {
        lemma_plane_val_bounds(g, c, ny * g.width + nx);
    }
}

/// The filled value of any plane lies in `[0, FP_ONE]`.
pub proof fn lemma_fill_bounds(g: GridView, c: int, x: int, y: int)
    ensures
        0 <= sp_fill(g, c, x, y) <= FP_ONE as int,
{
    lemma_plane_val_bounds(g, c, y * g.width + x);
    lemma_nbr_bounds(g, c, x - 1, y - 1);
    lemma_nbr_bounds(g, c, x, y - 1);
    lemma_nbr_bounds(g, c, x + 1, y - 1);
    lemma_nbr_bounds(g, c, x - 1, y);
    lemma_nbr_bounds(g, c, x + 1, y);
    lemma_nbr_bounds(g, c, x - 1, y + 1);
    lemma_nbr_bounds(g, c, x, y + 1);
    lemma_nbr_bounds(g, c, x + 1, y + 1);
    let sc = sp_nbr_sum(g, c, x, y);
    assert(0 <= sc.1 <= 8);
    if sc.1 > 0 {
        lemma_avg_bounds(sc.0, sc.1);
    }
}

/// The color plane sampled at flat index `idx`.
fn grid_color(g: &SensorGrid, idx: usize) -> (c: u8)
    ensures
        c as int == g.sp_view().sp_color(idx as int),
        c <= 2,
{
    if idx < g.cfa.len() {
        let v = g.cfa[idx];
        if v == 0 {
            0
        } else if v == 2 {
            2
        } else {
            1
        }
    } else {
        1
    }
}

/// The raw sample at flat index `idx`.
fn grid_sample(g: &SensorGrid, idx: usize) -> (v: u16)
    ensures
        v as int == g.sp_view().sp_sample(idx as int),
{
    if idx < g.samples.len() {
        g.samples[idx]
    } else {
        0
    }
}

/// The black level of plane `c`.
fn grid_black(g: &SensorGrid, c: u8) -> (v: u16)
    ensures
        v as int == g.sp_view().sp_black(c as int),
{
    if c == 0 {
        g.black_r
    } else if c == 2 {
        g.black_b
    } else {
        g.black_g
    }
}

/// The white level of plane `c`.
fn grid_white(g: &SensorGrid, c: u8) -> (v: u16)
    ensures
        v as int == g.sp_view().sp_white(c as int),
{
    if c == 0 {
        g.white_r
    } else if c == 2 {
        g.white_b
    } else {
        g.white_g
    }
}

/// The normalized value plane `c` holds at `idx` before infill.
fn plane_val(g: &SensorGrid, c: u8, idx: usize) -> (v: i64)
    requires
        c <= 2,
    ensures
        v as int == sp_plane_val(g.sp_view(), c as int, idx as int),
        0 <= v <= FP_ONE,
{
    if grid_color(g, idx) == c {
        normalize_sample(grid_sample(g, idx), grid_black(g, c), grid_white(g, c))
    } else {
        0
    }
}

/// One neighbor's contribution to the infill sum and count.
fn nbr_contrib(g: &SensorGrid, c: u8, nx: i64, ny: i64) -> (r: (i64, i64))
    requires
        g.wf(),
        c <= 2,
        -1 <= nx <= MAX_SIDE + 1,
        -1 <= ny <= MAX_SIDE + 1,
    ensures
        (r.0 as int, r.1 as int) == sp_nbr(g.sp_view(), c as int, nx as int, ny as int),
        0 <= r.0 <= FP_ONE,
        0 <= r.1 <= 1,
{
    if 0 <= nx && nx < g.width as i64 && 0 <= ny && ny < g.height as i64 {
        proof {
            assert((ny as int) * (g.width as int) + (nx as int) < (g.width as int) * (
            g.height as int)) by (nonlinear_arith)
                requires
                    0 <= nx < g.width as int,
                    0 <= ny < g.height as int,
            ;
            assert(0 <= (ny as int) * (g.width as int)) by (nonlinear_arith)
                requires
                    0 <= ny,
                    0 <= g.width as int,
            ;
        }
        let idx: usize = (ny as usize) * (g.width as usize) + (nx as usize);
        if grid_color(g, idx) == c {
            (plane_val(g, c, idx), 1)
        } else {
            (0, 0)
        }
    } else {
        (0, 0)
    }
}

/// The filled value of plane `c` at `(x, y)`.
#[verifier::rlimit(100)]
fn fill_at(g: &SensorGrid, c: u8, x: usize, y: usize) -> (v: i64)
    requires
        g.wf(),
        c <= 2,
        x < g.width,
        y < g.height,
    ensures
        v as int == sp_fill(g.sp_view(), c as int, x as int, y as int),
        0 <= v <= FP_ONE,
{
    proof {
        assert((y as int) * (g.width as int) + (x as int) < (g.width as int) * (g.height as int))
            by (nonlinear_arith)
            requires
                0 <= x < g.width as int,
                0 <= y < g.height as int,
        ;
        assert(0 <= (y as int) * (g.width as int)) by (nonlinear_arith)
            requires
                0 <= y,
                0 <= g.width as int,
        ;
    }
    let idx: usize = y * (g.width as usize) + x;
    if grid_color(g, idx) == c {
        plane_val(g, c, idx)
    } else {
        let xi = x as i64;
        let yi = y as i64;
        let a = nbr_contrib(g, c, xi - 1, yi - 1);
        let b = nbr_contrib(g, c, xi, yi - 1);
        let d = nbr_contrib(g, c, xi + 1, yi - 1);
        let e = nbr_contrib(g, c, xi - 1, yi);
        let f = nbr_contrib(g, c, xi + 1, yi);
        let h = nbr_contrib(g, c, xi - 1, yi + 1);
        let i = nbr_contrib(g, c, xi, yi + 1);
        let j = nbr_contrib(g, c, xi + 1, yi + 1);
        let sum: i64 = a.0 + b.0 + d.0 + e.0 + f.0 + h.0 + i.0 + j.0;
        let cnt: i64 = a.1 + b.1 + d.1 + e.1 + f.1 + h.1 + i.1 + j.1;
        if cnt > 0 {
            proof {
                lemma_fill_bounds(g.sp_view(), c as int, x as int, y as int);
                lemma_avg_bounds(sum as int, cnt as int);
            }
            sum / cnt
        } else {
            0
        }
    }
}

/// Scale a filled value to an output byte.
fn fill_to_byte(v: i64) -> (b: u8)
    requires
        0 <= v <= FP_ONE,
    ensures
        b as int == (v as int * 255) / (FP_ONE as int),
{
    proof {
        lemma_scale_byte_bounds(v as int);
    }
    ((v * 255) / FP_ONE) as u8
}

/// Every byte of pixel `q` in the output buffer matches the demosaic
/// formula at that pixel's grid coordinates.
pub open spec fn sp_pixel_ok(g: GridView, data: Seq<u8>, q: int) -> bool {
    let x = q % g.width;
    let y = q / g.width;
    let base = 4 * q;
    &&& data[base] as int == sp_demosaic_byte(g, 0, x, y)
    &&& data[base + 1] as int == sp_demosaic_byte(g, 1, x, y)
    &&& data[base + 2] as int == sp_demosaic_byte(g, 2, x, y)
    &&& data[base + 3] == 255u8
}

/// Demosaic a sample grid into an RGBA8 image: each pixel's sampled plane
/// is normalized directly; the two unsampled planes are filled with the
/// average of the sampled neighbors; alpha is opaque.
pub fn demosaic(g: &SensorGrid) -> (r: ImageBuf)
    requires
        g.wf(),
    ensures
        r.wf(),
        r.width == g.width,
        r.height == g.height,
        forall|q: int|
            #![trigger sp_pixel_ok(g.sp_view(), r.data@, q)]
            0 <= q < g.width * g.height ==> sp_pixel_ok(g.sp_view(), r.data@, q),
{
    let w = g.width;
    let h = g.height;
    let mut img = ImageBuf::filled_black(w, h);
    let n: usize = img.data.len();
    let np: usize = n / 4;
    proof {
        let wh = (w as int) * (h as int);
        lemma_rgba_len(w as int, h as int);
        assert(n == 4 * wh);
        vstd::arithmetic::div_mod::lemma_div_multiples_vanish(wh, 4);
        assert(np == wh);
    }
    let mut p: usize = 0;
    while p < np
        invariant
            g.wf(),
            w == g.width,
            h == g.height,
            img.width == w,
            img.height == h,
            img.data@.len() == n,
            n == 4 * np,
            np == (w as int) * (h as int),
            p <= np,
            forall|q: int| #![trigger sp_pixel_ok(g.sp_view(), img.data@, q)] 0 <= q < p ==> sp_pixel_ok(g.sp_view(), img.data@, q),
        decreases np - p,
    {
        let ghost d0 = img.data@;
        let x: usize = p % (w as usize);
        let y: usize = p / (w as usize);
        proof {
            vstd::arithmetic::div_mod::lemma_fundamental_div_mod(p as int, w as int);
            vstd::arithmetic::div_mod::lemma_mod_division_less_than_divisor(p as int, w as int);
            assert(y < h) by (nonlinear_arith)
                requires
                    p as int == (w as int) * (y as int) + (x as int),
                    0 <= x < w,
                    (p as int) < (w as int) * (h as int),
                    0 <= y,
                    1 <= w,
            ;
        }
        let fr = fill_at(g, 0, x, y);
        let fg = fill_at(g, 1, x, y);
        let fb = fill_at(g, 2, x, y);
        let base: usize = 4 * p;
        img.data[base] = fill_to_byte(fr);
        img.data[base + 1] = fill_to_byte(fg);
        img.data[base + 2] = fill_to_byte(fb);
        img.data[base + 3] = 255u8;
        proof {
            assert forall|q: int| #![trigger sp_pixel_ok(g.sp_view(), img.data@, q)] 0 <= q < p + 1 implies sp_pixel_ok(
                g.sp_view(),
                img.data@,
                q,
            ) by {
                if q == p as int {
                    assert(q % (g.width as int) == x as int);
                    assert(q / (g.width as int) == y as int);
                    assert(img.data@[4 * q] as int == sp_demosaic_byte(g.sp_view(), 0, x as int, y as int));
                    assert(img.data@[4 * q + 1] as int == sp_demosaic_byte(g.sp_view(), 1, x as int, y as int));
                    assert(img.data@[4 * q + 2] as int == sp_demosaic_byte(g.sp_view(), 2, x as int, y as int));
                    assert(img.data@[4 * q + 3] == 255u8);
                    assert(sp_pixel_ok(g.sp_view(), img.data@, q));
                } else {
                    assert(sp_pixel_ok(g.sp_view(), d0, q));
                    assert(4 * q + 3 < 4 * (p as int));
                    assert(img.data@[4 * q] == d0[4 * q]);
                    assert(img.data@[4 * q + 1] == d0[4 * q + 1]);
                    assert(img.data@[4 * q + 2] == d0[4 * q + 2]);
                    assert(img.data@[4 * q + 3] == d0[4 * q + 3]);
                    assert(sp_pixel_ok(g.sp_view(), img.data@, q));
                }
            }
        }
        p = p + 1;
    }
    img
}

/// Every byte of pixel `q` in an already-RGB composition matches the
/// per-channel normalization of the three interleaved samples.
pub open spec fn sp_rgb_pixel_ok(g: GridView, data: Seq<u8>, q: int) -> bool {
    let base = 4 * q;
    &&& data[base] as int == (sp_normalize(g.sp_sample(3 * q), g.sp_black(0), g.sp_white(0)) * 255)
        / (FP_ONE as int)
    &&& data[base + 1] as int == (sp_normalize(
        g.sp_sample(3 * q + 1),
        g.sp_black(1),
        g.sp_white(1),
    ) * 255) / (FP_ONE as int)
    &&& data[base + 2] as int == (sp_normalize(
        g.sp_sample(3 * q + 2),
        g.sp_black(2),
        g.sp_white(2),
    ) * 255) / (FP_ONE as int)
    &&& data[base + 3] == 255u8
}

/// Compose an already-RGB (three samples per pixel) grid into RGBA8 by
/// normalizing each channel directly; no infill is needed.
pub fn compose_rgb(g: &SensorGrid) -> (r: ImageBuf)
    requires
        1 <= g.width <= MAX_SIDE,
        1 <= g.height <= MAX_SIDE,
        g.width * g.height <= MAX_PIXELS,
    ensures
        r.wf(),
        r.width == g.width,
        r.height == g.height,
        forall|q: int|
            #![trigger sp_rgb_pixel_ok(g.sp_view(), r.data@, q)]
            0 <= q < g.width * g.height ==> sp_rgb_pixel_ok(g.sp_view(), r.data@, q),
{
    let w = g.width;
    let h = g.height;
    let mut img = ImageBuf::filled_black(w, h);
    let n: usize = img.data.len();
    let np: usize = n / 4;
    proof {
        let wh = (w as int) * (h as int);
        lemma_rgba_len(w as int, h as int);
        assert(n == 4 * wh);
        vstd::arithmetic::div_mod::lemma_div_multiples_vanish(wh, 4);
        assert(np == wh);
    }
    let mut p: usize = 0;
    while p < np
        invariant
            w == g.width,
            h == g.height,
            img.width == w,
            img.height == h,
            img.data@.len() == n,
            n == 4 * np,
            np == (w as int) * (h as int),
            np <= MAX_PIXELS,
            p <= np,
            forall|q: int|
                #![trigger sp_rgb_pixel_ok(g.sp_view(), img.data@, q)]
                0 <= q < p ==> sp_rgb_pixel_ok(g.sp_view(), img.data@, q),
        decreases np - p,
    {
        let ghost d0 = img.data@;
        let vr = normalize_sample(
            grid_sample(g, 3 * p),
            grid_black(g, 0),
            grid_white(g, 0),
        );
        let vg = normalize_sample(
            grid_sample(g, 3 * p + 1),
            grid_black(g, 1),
            grid_white(g, 1),
        );
        let vb = normalize_sample(
            grid_sample(g, 3 * p + 2),
            grid_black(g, 2),
            grid_white(g, 2),
        );
        let base: usize = 4 * p;
        img.data[base] = fill_to_byte(vr);
        img.data[base + 1] = fill_to_byte(vg);
        img.data[base + 2] = fill_to_byte(vb);
        img.data[base + 3] = 255u8;
        proof {
            assert forall|q: int|
                #![trigger sp_rgb_pixel_ok(g.sp_view(), img.data@, q)]
                0 <= q < p + 1 implies sp_rgb_pixel_ok(g.sp_view(), img.data@, q) by {
                if q == p as int {
                    assert(sp_rgb_pixel_ok(g.sp_view(), img.data@, q));
                } else {
                    assert(sp_rgb_pixel_ok(g.sp_view(), d0, q));
                    assert(4 * q + 3 < 4 * (p as int));
                    assert(img.data@[4 * q] == d0[4 * q]);
                    assert(img.data@[4 * q + 1] == d0[4 * q + 1]);
                    assert(img.data@[4 * q + 2] == d0[4 * q + 2]);
                    assert(img.data@[4 * q + 3] == d0[4 * q + 3]);
                    assert(sp_rgb_pixel_ok(g.sp_view(), img.data@, q));
                }
            }
        }
        p = p + 1;
    }
    img
}

/// Unpack the per-pixel demosaic guarantee at grid coordinates `(x, y)`.
pub proof fn lemma_pixel_ok_at(g: GridView, data: Seq<u8>, x: int, y: int)
    requires
        0 <= x < g.width,
        0 <= y < g.height,
        sp_pixel_ok(g, data, y * g.width + x),
    ensures
        ({
            let base = 4 * (y * g.width + x);
            &&& data[base] as int == sp_demosaic_byte(g, 0, x, y)
            &&& data[base + 1] as int == sp_demosaic_byte(g, 1, x, y)
            &&& data[base + 2] as int == sp_demosaic_byte(g, 2, x, y)
            &&& data[base + 3] == 255u8
        }),
{
    let q = y * (g.width as int) + x;
    vstd::arithmetic::div_mod::lemma_fundamental_div_mod_converse(q, g.width as int, y, x);
}

} // verus!
