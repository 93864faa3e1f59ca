//! The multi-backend decode chain: the general-purpose codec first, then
//! the RAW parser with the hand-written demosaic, then the last-resort
//! dummy parse. Every backend's failure reason is kept, and a decode fails
//! only when every backend has.
//!
//! A RAW-processing-library backend (16-bit output first, then 8-bit)
//! would sit between the codec and the RAW parser, but its crate binds a
//! native library that cannot be built here, so the chain has no such
//! stage; the channel expansion that backend's buffers need is verified in
//! `channels` and ready should a binding become available.

use vstd::prelude::*;
use vstd::string::StringExecFns;

use crate::codec::{
    dummy_parse, image_decode, image_decode_bytes, raw_parse, rawloader_grid,
    rawloader_grid_dummy,
};
use crate::demosaic::{compose_rgb, demosaic, sp_pixel_ok, sp_rgb_pixel_ok, GridView, SensorGrid};
use crate::img::{ImageBuf, MAX_PIXELS, MAX_SIDE};

verus! {

/// Whether the general-purpose codec both decodes the bytes and yields
/// dimensions the working buffer can hold.
pub open spec fn sp_image_backend_ok(bytes: Seq<u8>) -> bool {
    let d = image_decode(bytes);
    &&& d.0
    &&& 1 <= d.1 <= MAX_SIDE
    &&& 1 <= d.2 <= MAX_SIDE
    &&& d.1 * d.2 <= MAX_PIXELS
}

/// The grid `raw_parse` names, as the demosaic formulas see it.
pub open spec fn sp_raw_grid(bytes: Seq<u8>) -> GridView {
    let t = raw_parse(bytes);
    GridView {
        width: t.1 as int,
        height: t.2 as int,
        samples: t.4,
        cfa: t.5,
        black_r: t.6.0,
        black_g: t.6.1,
        black_b: t.6.2,
        white_r: t.7.0,
        white_g: t.7.1,
        white_b: t.7.2,
    }
}

/// The grid `dummy_parse` names, as the demosaic formulas see it.
pub open spec fn sp_dummy_grid(bytes: Seq<u8>) -> GridView {
    let t = dummy_parse(bytes);
    GridView {
        width: t.1 as int,
        height: t.2 as int,
        samples: t.4,
        cfa: t.5,
        black_r: t.6.0,
        black_g: t.6.1,
        black_b: t.6.2,
        white_r: t.7.0,
        white_g: t.7.1,
        white_b: t.7.2,
    }
}

/// The buffer the RAW path owes for a parsed grid: matching dimensions,
/// every pixel fixed by the direct-normalize formula for three-component
/// data and by the demosaic fill formula otherwise.
pub open spec fn sp_raw_output_ok(gv: GridView, cpp: nat, img: ImageBuf) -> bool {
    &&& img.wf()
    &&& img.width as int == gv.width
    &&& img.height as int == gv.height
    &&& (cpp == 3 ==> forall|q: int|
        #![trigger sp_rgb_pixel_ok(gv, img.data@, q)]
        0 <= q < gv.width * gv.height ==> sp_rgb_pixel_ok(gv, img.data@, q))
    &&& (cpp != 3 ==> forall|q: int|
        #![trigger sp_pixel_ok(gv, img.data@, q)]
        0 <= q < gv.width * gv.height ==> sp_pixel_ok(gv, img.data@, q))
}

/// Whether the RAW backend serves these bytes: the parse succeeds and the
/// parsed dimensions fit the working buffer.
pub open spec fn sp_raw_backend_ok(bytes: Seq<u8>) -> bool {
    let t = raw_parse(bytes);
    &&& t.0
    &&& 1 <= t.1 <= MAX_SIDE
    &&& 1 <= t.2 <= MAX_SIDE
    &&& t.1 * t.2 <= MAX_PIXELS
}

/// Whether the dummy backend serves these bytes.
pub open spec fn sp_dummy_backend_ok(bytes: Seq<u8>) -> bool {
    let t = dummy_parse(bytes);
    &&& t.0
    &&& 1 <= t.1 <= MAX_SIDE
    &&& 1 <= t.2 <= MAX_SIDE
    &&& t.1 * t.2 <= MAX_PIXELS
}

/// Whether any backend of the chain decodes these bytes.
pub open spec fn sp_decodable(bytes: Seq<u8>) -> bool {
    ||| sp_image_backend_ok(bytes)
    ||| sp_raw_backend_ok(bytes)
    ||| sp_dummy_backend_ok(bytes)
}

/// `p` is the first `p.len()` characters of `s`.
pub open spec fn sp_has_prefix(s: Seq<char>, p: Seq<char>) -> bool {
    p.len() <= s.len() && s.subrange(0, p.len() as int) == p
}

/// The failure of every decode backend, one reason per backend in chain
/// order.
#[derive(Debug)]
pub struct DecodeError {
    pub attempts: Vec<String>,
}

/// The separator between aggregated failure reasons.
pub open spec fn sp_sep() -> Seq<char> {
    seq![';', ' ']
}

/// The reasons joined into one message, in order, separated by `sp_sep`.
pub open spec fn sp_join(parts: Seq<Seq<char>>, i: int) -> Seq<char>
    decreases parts.len() - i,
{
    if i < 0 || i >= parts.len() {
        Seq::empty()
    } else if i == parts.len() - 1 {
        parts[i]
    } else {
        parts[i] + sp_sep() + sp_join(parts, i + 1)
    }
}

impl DecodeError {
    /// The view of each recorded reason, in order.
    pub open spec fn sp_parts(self) -> Seq<Seq<char>> {
        self.attempts@.map_values(|s: String| s@)
    }

    /// One human-readable message listing every backend's reason.
    pub fn message(&self) -> (r: String)
        ensures
            r@ == sp_join(self.sp_parts(), 0),
    {
        let n = self.attempts.len();
        if n == 0 {
            return String::new();
        }
        let mut acc: String = self.attempts[n - 1].clone();
        let mut i: usize = n - 1;
        while i > 0
            invariant
                i < n,
                n == self.attempts@.len(),
                acc@ == sp_join(self.sp_parts(), i as int),
            decreases i,
        {
            i = i - 1;
            let mut piece: String = self.attempts[i].clone();
            piece.append("; ");
            piece.append(acc.as_str());
            proof {
                reveal_strlit("; ");
                assert(sp_sep() =~= "; "@);
            }
            acc = piece;
        }
        acc
    }
}

/// `needle` occurs contiguously in `hay` at offset `off`.
pub open spec fn sp_occurs_at(hay: Seq<char>, needle: Seq<char>, off: int) -> bool {
    &&& 0 <= off
    &&& off + needle.len() <= hay.len()
    &&& hay.subrange(off, off + needle.len() as int) == needle
}

/// Each recorded reason occurs verbatim, contiguously, inside the joined
/// message.
pub proof fn lemma_join_contains(parts: Seq<Seq<char>>, i: int, j: int)
    requires
        0 <= j <= i < parts.len(),
    ensures
        exists|off: int| #[trigger] sp_occurs_at(sp_join(parts, j), parts[i], off),
    decreases i - j,
{
    let joined = sp_join(parts, j);
    if i == j {
        if j < parts.len() - 1 {
            assert(joined == parts[j] + sp_sep() + sp_join(parts, j + 1));
        }
        assert(joined.subrange(0, parts[i].len() as int) =~= parts[i]);
        assert(sp_occurs_at(joined, parts[i], 0));
    } else {
        lemma_join_contains(parts, i, j + 1);
        let tail = sp_join(parts, j + 1);
        let off0 = choose|off: int| #[trigger] sp_occurs_at(tail, parts[i], off);
        let shift = parts[j].len() + sp_sep().len();
        assert(joined == parts[j] + sp_sep() + tail);
        assert(joined.subrange(off0 + shift, off0 + shift + parts[i].len() as int) =~= tail
            .subrange(off0, off0 + parts[i].len() as int));
        assert(sp_occurs_at(joined, parts[i], off0 + shift));
    }
}

/// Append the conversion hint to a RAW parse failure that names an
/// unrecognized camera, so the caller sees a way forward.
fn with_camera_hint(msg: String) -> String {
    let needle = "Couldn't find camera";
    let nb = needle.as_bytes();
    let hb = msg.as_str().as_bytes();
    if nb.len() == 0 || nb.len() > hb.len() {
        return msg;
    }
    let limit: usize = hb.len() - nb.len();
    let mut i: usize = 0;
    while i <= limit
        invariant
            limit + nb.len() == hb.len(),
            1 <= nb.len(),
            i <= limit + 1,
        decreases limit + 1 - i,
    {
        let mut j: usize = 0;
        let mut all = true;
        while j < nb.len()
            invariant
                i <= limit,
                limit + nb.len() == hb.len(),
                j <= nb.len(),
            decreases nb.len() - j,
        {
            if hb[i + j] != nb[j] {
                all = false;
            }
            j = j + 1;
        }
        if all {
            let mut hinted = msg;
            hinted.append(". Try converting to DNG (lossless) or using a supported camera profile.");
            return hinted;
        }
        i = i + 1;
    }
    msg
}

/// Prepend a backend tag to a failure reason.
fn tagged(tag: &str, msg: String) -> (r: String)
    ensures
        r@ == tag@ + msg@,
        sp_has_prefix(r@, tag@),
{
    let r = String::from_str(tag).concat(msg.as_str());
    proof {
        assert(r@.subrange(0, tag@.len() as int) =~= tag@);
    }
    r
}

/// Decide whether decoded dimensions fit the working buffer.
fn dims_ok(w: u64, h: u64) -> (r: bool)
    ensures
        r == (1 <= w && w <= MAX_SIDE && 1 <= h && h <= MAX_SIDE && (w as int) * (h as int)
            <= MAX_PIXELS),
{
    if 1 <= w && w <= MAX_SIDE as u64 && 1 <= h && h <= MAX_SIDE as u64 {
        proof {
            assert((w as int) * (h as int) <= 0x1_0000_0000) by (nonlinear_arith)
                requires
                    w <= 0x1_0000,
                    h <= 0x1_0000,
            ;
        }
        w * h <= MAX_PIXELS
    } else {
        false
    }
}

/// Decode through the general-purpose codec, accepting only dimensions the
/// working buffer can hold.
fn decode_via_image(bytes: &Vec<u8>) -> (r: Result<ImageBuf, String>)
    ensures
        r is Ok <==> sp_image_backend_ok(bytes@),
        r matches Ok(img) ==> {
            &&& img.wf()
            &&& img.width as nat == image_decode(bytes@).1
            &&& img.height as nat == image_decode(bytes@).2
            &&& img.data@ == image_decode(bytes@).3
        },
{
    match image_decode_bytes(bytes) {
        Ok((w, h, data)) => {
            if dims_ok(w as u64, h as u64) {
                Ok(ImageBuf { width: w, height: h, data })
            } else {
                Err(String::from_str("decoded dimensions outside the supported range"))
            }
        },
        Err(e) => Err(e),
    }
}

/// Turn a parsed grid into the working buffer: validate dimensions, then
/// normalize an already-RGB grid directly or demosaic any other.
fn raw_grid_to_buf(
    w64: u64,
    h64: u64,
    cpp: u64,
    samples: Vec<u16>,
    cfa: Vec<u8>,
    black: (u16, u16, u16),
    white: (u16, u16, u16),
) -> (r: Result<ImageBuf, String>)
    requires
        cfa@.len() == w64 * h64,
    ensures
        r is Ok <==> (1 <= w64 && w64 <= MAX_SIDE && 1 <= h64 && h64 <= MAX_SIDE && (w64 as int)
            * (h64 as int) <= MAX_PIXELS),
        r matches Ok(img) ==> sp_raw_output_ok(
            GridView {
                width: w64 as int,
                height: h64 as int,
                samples: samples@,
                cfa: cfa@,
                black_r: black.0 as int,
                black_g: black.1 as int,
                black_b: black.2 as int,
                white_r: white.0 as int,
                white_g: white.1 as int,
                white_b: white.2 as int,
            },
            cpp as nat,
            img,
        ),
{
    if !dims_ok(w64, h64) {
        return Err(String::from_str("sensor dimensions outside the supported range"));
    }
    let ghost gv = GridView {
        width: w64 as int,
        height: h64 as int,
        samples: samples@,
        cfa: cfa@,
        black_r: black.0 as int,
        black_g: black.1 as int,
        black_b: black.2 as int,
        white_r: white.0 as int,
        white_g: white.1 as int,
        white_b: white.2 as int,
    };
    let grid = SensorGrid {
        width: w64 as u32,
        height: h64 as u32,
        samples,
        cfa,
        black_r: black.0,
        black_g: black.1,
        black_b: black.2,
        white_r: white.0,
        white_g: white.1,
        white_b: white.2,
    };
    proof {
        assert(grid.sp_view() == gv);
        assert(grid.wf());
    }
    if cpp == 3 {
        let img = compose_rgb(&grid);
        proof {
            assert(sp_raw_output_ok(gv, cpp as nat, img));
        }
        Ok(img)
    } else {
        let img = demosaic(&grid);
        proof {
            assert(sp_raw_output_ok(gv, cpp as nat, img));
        }
        Ok(img)
    }
}

/// Decode through the RAW parser and the hand-written demosaic: succeeds
/// exactly when the parse succeeds with dimensions the working buffer can
/// hold, and then returns the demosaic of the parsed grid.
fn decode_via_raw(bytes: &Vec<u8>) -> (r: Result<ImageBuf, String>)
    ensures
        r is Ok <==> sp_raw_backend_ok(bytes@),
        r matches Ok(img) ==> sp_raw_output_ok(sp_raw_grid(bytes@), raw_parse(bytes@).3, img),
{
    match rawloader_grid(bytes) {
        Ok((w, h, cpp, samples, cfa, black, white)) => {
            proof {
                assert(GridView {
                    width: w as int,
                    height: h as int,
                    samples: samples@,
                    cfa: cfa@,
                    black_r: black[0] as int,
                    black_g: black[1] as int,
                    black_b: black[2] as int,
                    white_r: white[0] as int,
                    white_g: white[1] as int,
                    white_b: white[2] as int,
                } == sp_raw_grid(bytes@));
            }
            raw_grid_to_buf(
                w,
                h,
                cpp,
                samples,
                cfa,
                (black[0], black[1], black[2]),
                (white[0], white[1], white[2]),
            )
        },
        Err(e) => Err(with_camera_hint(e)),
    }
}

/// Decode through the RAW parser's last-resort dummy mode: the same shape
/// of promise over the dummy parse.
fn decode_via_dummy(bytes: &Vec<u8>) -> (r: Result<ImageBuf, String>)
    ensures
        r is Ok <==> sp_dummy_backend_ok(bytes@),
        r matches Ok(img) ==> sp_raw_output_ok(sp_dummy_grid(bytes@), dummy_parse(bytes@).3, img),
{
    match rawloader_grid_dummy(bytes) {
        Ok((w, h, cpp, samples, cfa, black, white)) => {
            proof {
                assert(GridView {
                    width: w as int,
                    height: h as int,
                    samples: samples@,
                    cfa: cfa@,
                    black_r: black[0] as int,
                    black_g: black[1] as int,
                    black_b: black[2] as int,
                    white_r: white[0] as int,
                    white_g: white[1] as int,
                    white_b: white[2] as int,
                } == sp_dummy_grid(bytes@));
            }
            raw_grid_to_buf(
                w,
                h,
                cpp,
                samples,
                cfa,
                (black[0], black[1], black[2]),
                (white[0], white[1], white[2]),
            )
        },
        Err(e) => Err(e),
    }
}

/// Decode a byte stream through every backend in order: the
/// general-purpose codec, the RAW parser with demosaic, then the dummy
/// parse. The decode succeeds exactly when some backend serves the bytes,
/// the first serving backend fixes the output, and a failure reports every
/// backend's reason, tagged and in chain order.
pub fn decode_bytes(bytes: &Vec<u8>) -> (r: Result<ImageBuf, DecodeError>)
    ensures
        r matches Ok(img) ==> img.wf(),
        r is Ok <==> sp_decodable(bytes@),
        sp_image_backend_ok(bytes@) ==> (r matches Ok(img) ==> {
            &&& img.width as nat == image_decode(bytes@).1
            &&& img.height as nat == image_decode(bytes@).2
            &&& img.data@ == image_decode(bytes@).3
        }),
        !sp_image_backend_ok(bytes@) && sp_raw_backend_ok(bytes@) ==> (r matches Ok(img)
            ==> sp_raw_output_ok(sp_raw_grid(bytes@), raw_parse(bytes@).3, img)),
        !sp_image_backend_ok(bytes@) && !sp_raw_backend_ok(bytes@) && sp_dummy_backend_ok(bytes@)
            ==> (r matches Ok(img) ==> sp_raw_output_ok(
            sp_dummy_grid(bytes@),
            dummy_parse(bytes@).3,
            img,
        )),
        r matches Err(e) ==> {
            &&& !sp_decodable(bytes@)
            &&& e.attempts@.len() == 3
            &&& sp_has_prefix(e.attempts@[0]@, "image: "@)
            &&& sp_has_prefix(e.attempts@[1]@, "raw: "@)
            &&& sp_has_prefix(e.attempts@[2]@, "dummy: "@)
        },
{
    let image_err = match decode_via_image(bytes) {
        Ok(img) => {
            return Ok(img);
        },
        Err(e) => e,
    };
    let raw_err = match decode_via_raw(bytes) {
        Ok(img) => {
            return Ok(img);
        },
        Err(e) => e,
    };
    let dummy_err = match decode_via_dummy(bytes) {
        Ok(img) => {
            return Ok(img);
        },
        Err(e) => e,
    };
    let mut attempts: Vec<String> = Vec::new();
    attempts.push(tagged("image: ", image_err));
    attempts.push(tagged("raw: ", raw_err));
    attempts.push(tagged("dummy: ", dummy_err));
    Err(DecodeError { attempts })
}

} // verus!
