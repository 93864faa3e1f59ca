//! Expansion of interleaved channel buffers, as RAW-processing backends
//! return them, into the RGBA8 working format: the channel count is
//! inferred from the buffer length, and 16-bit samples keep their high
//! byte (truncating, not rounding).
//!
//! The decode chain currently has no backend that produces such buffers:
//! the RAW-processing-library crate binds a native library that cannot be
//! built here. These functions carry that backend's buffer-shape rules,
//! verified and tested, for a shell that links the native library.

use vstd::prelude::*;

use crate::img::{lemma_rgba_len, ImageBuf, MAX_PIXELS, MAX_SIDE};

verus! {

/// The channel count a buffer length implies for a pixel grid: the exact
/// quotient when the length is a positive multiple of the pixel count.
pub open spec fn sp_channels_from_len(len: int, w: int, h: int) -> Option<int> {
    let pixels = w * h;
    if pixels == 0 {
        Option::None
    } else if len / pixels == 0 || len % pixels != 0 {
        Option::None
    } else {
        Option::Some(len / pixels)
    }
}

/// Infer the channel count from a buffer length; `None` when the length is
/// not a positive multiple of the pixel count.
pub fn channels_from_len(len: usize, w: u32, h: u32) -> (r: Option<usize>)
    requires
        w * h <= MAX_PIXELS,
    ensures
        match r {
            Some(c) => sp_channels_from_len(len as int, w as int, h as int) == Option::Some(
                c as int,
            ),
            None => sp_channels_from_len(len as int, w as int, h as int) is None,
        },
{
    proof {
        assert((w as int) * (h as int) <= MAX_PIXELS) by (nonlinear_arith)
            requires
                (w as int) * (h as int) <= MAX_PIXELS,
        ;
    }
    let pixels: u64 = (w as u64) * (h as u64);
    if pixels == 0 {
        return None;
    }
    let len64 = len as u64;
    let div = len64 / pixels;
    let rem = len64 % pixels;
    if div == 0 || rem != 0 {
        None
    } else {
        proof {
            vstd::arithmetic::div_mod::lemma_div_is_ordered(len64 as int, u64::MAX as int, pixels as int);
            vstd::arithmetic::div_mod::lemma_div_nonincreasing(len64 as int, pixels as int);
        }
        Some(div as usize)
    }
}

/// A sample read with a fallback for indexes beyond the buffer.
pub open spec fn sp_get16(data: Seq<u16>, i: int, d: int) -> int {
    if 0 <= i < data.len() {
        data[i] as int
    } else {
        d
    }
}

/// The RGBA bytes pixel `q` expands to from a `c`-channel 16-bit buffer:
/// one channel replicates to gray, two add alpha, three or more are RGB
/// with optional alpha; every 16-bit value keeps its high byte.
pub open spec fn sp_expand16_px(data: Seq<u16>, c: int, q: int) -> (int, int, int, int) {
    let base = q * c;
    if c == 1 {
        let v = sp_get16(data, base, 0);
        (v / 256, v / 256, v / 256, 255)
    } else if c == 2 {
        let v = sp_get16(data, base, 0);
        let a = sp_get16(data, base + 1, 65535);
        (v / 256, v / 256, v / 256, a / 256)
    } else {
        let r = sp_get16(data, base, 0);
        let g = sp_get16(data, base + 1, r);
        let b = sp_get16(data, base + 2, g);
        let a = if c > 3 {
            sp_get16(data, base + 3, 65535)
        } else {
            65535
        };
        (r / 256, g / 256, b / 256, a / 256)
    }
}

/// Every byte of output pixel `q` matches the 16-bit expansion.
pub open spec fn sp_expand16_ok(data: Seq<u16>, c: int, out: Seq<u8>, q: int) -> bool {
    let px = sp_expand16_px(data, c, q);
    &&& out[4 * q] as int == px.0
    &&& out[4 * q + 1] as int == px.1
    &&& out[4 * q + 2] as int == px.2
    &&& out[4 * q + 3] as int == px.3
}

/// The high byte of a 16-bit sample.
fn high_byte(v: u16) -> (r: u8)
    ensures
        r as int == v as int / 256,
{
    proof {
        vstd::arithmetic::div_mod::lemma_div_pos_is_pos(v as int, 256);
        vstd::arithmetic::div_mod::lemma_div_is_ordered(v as int, 65535, 256);
    }
    ((v as u32) / 256) as u8
}

/// A 16-bit sample read with a fallback.
fn get16(data: &Vec<u16>, i: u64, d: u16) -> (r: u16)
    ensures
        r as int == sp_get16(data@, i as int, d as int),
{
    if i < data.len() as u64 {
        data[i as usize]
    } else {
        d
    }
}

/// Expand an interleaved 16-bit buffer into RGBA8, inferring the channel
/// count from the length; a length that is not a positive multiple of the
/// pixel count is a shape error.
pub fn expand_rgba_u16(w: u32, h: u32, data: &Vec<u16>) -> (r: Result<ImageBuf, String>)
    requires
        1 <= w <= MAX_SIDE,
        1 <= h <= MAX_SIDE,
        w * h <= MAX_PIXELS,
    ensures
        r is Ok <==> sp_channels_from_len(data@.len() as int, w as int, h as int) is Some,
        r matches Ok(img) ==> {
            let c = sp_channels_from_len(data@.len() as int, w as int, h as int).unwrap();
            &&& img.wf()
            &&& img.width == w
            &&& img.height == h
            &&& forall|q: int|
                #![trigger sp_expand16_ok(data@, c, img.data@, q)]
                0 <= q < w * h ==> sp_expand16_ok(data@, c, img.data@, q)
        },
{
    let channels: usize = match channels_from_len(data.len(), w, h) {
        Some(c) => c,
        None => {
            return Err(String::from_str("RAW backend returned an unexpected buffer size"));
        },
    };
    let ghost c = channels as int;
    let dlen: usize = data.len();
    let mut img = ImageBuf::filled_black(w, h);
    let n: usize = img.data.len();
    let np: usize = n / 4;
    proof {
        let wh = (w as int) * (h as int);
        lemma_rgba_len(w as int, h as int);
        assert(n == 4 * wh);
        vstd::arithmetic::div_mod::lemma_div_multiples_vanish(wh, 4);
        assert(np == wh);
        assert(data@.len() == wh * c) by {
            vstd::arithmetic::div_mod::lemma_fundamental_div_mod(data@.len() as int, wh);
        }
    }
    let mut p: usize = 0;
    while p < np
        invariant
            w == img.width,
            h == img.height,
            img.data@.len() == n,
            n == 4 * np,
            np == (w as int) * (h as int),
            np <= MAX_PIXELS,
            c == channels as int,
            1 <= channels,
            data@.len() == np * c,
            data@.len() == dlen,
            p <= np,
            forall|q: int|
                #![trigger sp_expand16_ok(data@, c, img.data@, q)]
                0 <= q < p ==> sp_expand16_ok(data@, c, img.data@, q),
        decreases np - p,
    {
        let ghost d0 = img.data@;
        proof {
            assert((p as int) * c >= 0 && (p as int) * c + c <= np * c) by (nonlinear_arith)
                requires
                    0 <= p < np,
                    1 <= c,
            ;
            assert((p as int) * c + c <= dlen);
        }
        let base: u64 = (p as u64) * (channels as u64);
        let px: (u8, u8, u8, u8) = if channels == 1 {
            let v = high_byte(get16(data, base, 0));
            (v, v, v, 255u8)
        } else if channels == 2 {
            let v = high_byte(get16(data, base, 0));
            let a = high_byte(get16(data, base + 1, 65535));
            (v, v, v, a)
        } else {
            let rv = get16(data, base, 0);
            let gv = get16(data, base + 1, rv);
            let bv = get16(data, base + 2, gv);
            let av: u16 = if channels > 3 {
                get16(data, base + 3, 65535)
            } else {
                65535
            };
            (high_byte(rv), high_byte(gv), high_byte(bv), high_byte(av))
        };
        let out: usize = 4 * p;
        img.data[out] = px.0;
        img.data[out + 1] = px.1;
        img.data[out + 2] = px.2;
        img.data[out + 3] = px.3;
        proof {
            assert(65535int / 256 == 255) by {
                vstd::arithmetic::div_mod::lemma_fundamental_div_mod_converse(65535, 256, 255, 255);
            }
            assert forall|q: int|
                #![trigger sp_expand16_ok(data@, c, img.data@, q)]
                0 <= q < p + 1 implies sp_expand16_ok(data@, c, img.data@, q) by {
                if q == p as int {
                    assert(sp_expand16_ok(data@, c, img.data@, q));
                } else {
                    assert(sp_expand16_ok(data@, c, d0, q));
                    assert(4 * q + 3 < 4 * (p as int));
                    assert(img.data@[4 * q] == d0[4 * q]);
                    assert(img.data@[4 * q + 1] == d0[4 * q + 1]);
                    assert(img.data@[4 * q + 2] == d0[4 * q + 2]);
                    assert(img.data@[4 * q + 3] == d0[4 * q + 3]);
                    assert(sp_expand16_ok(data@, c, img.data@, q));
                }
            }
        }
        p = p + 1;
    }
    Ok(img)
}

/// A byte sample read with a fallback for indexes beyond the buffer.
pub open spec fn sp_get8(data: Seq<u8>, i: int, d: int) -> int {
    if 0 <= i < data.len() {
        data[i] as int
    } else {
        d
    }
}

/// The RGBA bytes pixel `q` expands to from a `c`-channel 8-bit buffer.
pub open spec fn sp_expand8_px(data: Seq<u8>, c: int, q: int) -> (int, int, int, int) {
    let base = q * c;
    if c == 1 {
        let v = sp_get8(data, base, 0);
        (v, v, v, 255)
    } else if c == 2 {
        let v = sp_get8(data, base, 0);
        let a = sp_get8(data, base + 1, 255);
        (v, v, v, a)
    } else {
        let r = sp_get8(data, base, 0);
        let g = sp_get8(data, base + 1, r);
        let b = sp_get8(data, base + 2, g);
        let a = if c > 3 {
            sp_get8(data, base + 3, 255)
        } else {
            255
        };
        (r, g, b, a)
    }
}

/// Every byte of output pixel `q` matches the 8-bit expansion.
pub open spec fn sp_expand8_ok(data: Seq<u8>, c: int, out: Seq<u8>, q: int) -> bool {
    let px = sp_expand8_px(data, c, q);
    &&& out[4 * q] as int == px.0
    &&& out[4 * q + 1] as int == px.1
    &&& out[4 * q + 2] as int == px.2
    &&& out[4 * q + 3] as int == px.3
}

/// An 8-bit sample read with a fallback.
fn get8(data: &Vec<u8>, i: u64, d: u8) -> (r: u8)
    ensures
        r as int == sp_get8(data@, i as int, d as int),
{
    if i < data.len() as u64 {
        data[i as usize]
    } else {
        d
    }
}

/// Expand an interleaved 8-bit buffer into RGBA8, inferring the channel
/// count from the length; a length that is not a positive multiple of the
/// pixel count is a shape error.
pub fn expand_rgba_u8(w: u32, h: u32, data: &Vec<u8>) -> (r: Result<ImageBuf, String>)
    requires
        1 <= w <= MAX_SIDE,
        1 <= h <= MAX_SIDE,
        w * h <= MAX_PIXELS,
    ensures
        r is Ok <==> sp_channels_from_len(data@.len() as int, w as int, h as int) is Some,
        r matches Ok(img) ==> {
            let c = sp_channels_from_len(data@.len() as int, w as int, h as int).unwrap();
            &&& img.wf()
            &&& img.width == w
            &&& img.height == h
            &&& forall|q: int|
                #![trigger sp_expand8_ok(data@, c, img.data@, q)]
                0 <= q < w * h ==> sp_expand8_ok(data@, c, img.data@, q)
        },
{
    let channels: usize = match channels_from_len(data.len(), w, h) {
        Some(c) => c,
        None => {
            return Err(String::from_str("RAW backend returned an unexpected buffer size"));
        },
    };
    let ghost c = channels as int;
    let dlen: usize = data.len();
    let mut img = ImageBuf::filled_black(w, h);
    let n: usize = img.data.len();
    let np: usize = n / 4;
    proof {
        let wh = (w as int) * (h as int);
        lemma_rgba_len(w as int, h as int);
        assert(n == 4 * wh);
        vstd::arithmetic::div_mod::lemma_div_multiples_vanish(wh, 4);
        assert(np == wh);
        assert(data@.len() == wh * c) by {
            vstd::arithmetic::div_mod::lemma_fundamental_div_mod(data@.len() as int, wh);
        }
    }
    let mut p: usize = 0;
    while p < np
        invariant
            w == img.width,
            h == img.height,
            img.data@.len() == n,
            n == 4 * np,
            np == (w as int) * (h as int),
            np <= MAX_PIXELS,
            c == channels as int,
            1 <= channels,
            data@.len() == np * c,
            data@.len() == dlen,
            p <= np,
            forall|q: int|
                #![trigger sp_expand8_ok(data@, c, img.data@, q)]
                0 <= q < p ==> sp_expand8_ok(data@, c, img.data@, q),
        decreases np - p,
    {
        let ghost d0 = img.data@;
        proof {
            assert((p as int) * c >= 0 && (p as int) * c + c <= np * c) by (nonlinear_arith)
                requires
                    0 <= p < np,
                    1 <= c,
            ;
            assert((p as int) * c + c <= dlen);
        }
        let base: u64 = (p as u64) * (channels as u64);
        let px: (u8, u8, u8, u8) = if channels == 1 {
            let v = get8(data, base, 0);
            (v, v, v, 255u8)
        } else if channels == 2 {
            let v = get8(data, base, 0);
            let a = get8(data, base + 1, 255);
            (v, v, v, a)
        } else {
            let rv = get8(data, base, 0);
            let gv = get8(data, base + 1, rv);
            let bv = get8(data, base + 2, gv);
            let av: u8 = if channels > 3 {
                get8(data, base + 3, 255)
            } else {
                255
            };
            (rv, gv, bv, av)
        };
        let out: usize = 4 * p;
        img.data[out] = px.0;
        img.data[out + 1] = px.1;
        img.data[out + 2] = px.2;
        img.data[out + 3] = px.3;
        proof {
            assert forall|q: int|
                #![trigger sp_expand8_ok(data@, c, img.data@, q)]
                0 <= q < p + 1 implies sp_expand8_ok(data@, c, img.data@, q) by {
                if q == p as int {
                    assert(sp_expand8_ok(data@, c, img.data@, q));
                } else {
                    assert(sp_expand8_ok(data@, c, d0, q));
                    assert(4 * q + 3 < 4 * (p as int));
                    assert(img.data@[4 * q] == d0[4 * q]);
                    assert(img.data@[4 * q + 1] == d0[4 * q + 1]);
                    assert(img.data@[4 * q + 2] == d0[4 * q + 2]);
                    assert(img.data@[4 * q + 3] == d0[4 * q + 3]);
                    assert(sp_expand8_ok(data@, c, img.data@, q));
                }
            }
        }
        p = p + 1;
    }
    Ok(img)
}

} // verus!
