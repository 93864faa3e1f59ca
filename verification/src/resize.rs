//! Aspect-preserving downsampling to a target maximum dimension, and the
//! decode-then-resize entry the cache uses to materialize masters.

use vstd::prelude::*;

use crate::codec::{cubic_resize, image_decode, resize_rgba_exact};
use crate::decode::{decode_bytes, sp_decodable, sp_image_backend_ok, DecodeError};
use crate::dims::{spec_target_size, target_size, PREVIEW_MAX_DIM};
use crate::img::{ImageBuf, MAX_PIXELS};

verus! {

/// The pixels an aspect-preserving resize yields: the source's own pixels
/// when the size already matches, else the Catmull-Rom resample.
pub open spec fn sp_resized_bytes(data: Seq<u8>, w: int, h: int, nw: int, nh: int) -> Seq<u8> {
    if nw == w && nh == h {
        data
    } else {
        cubic_resize(data, w as nat, h as nat, nw as nat, nh as nat)
    }
}

/// The pixels an aspect-preserving resize yields for a buffer value.
pub open spec fn sp_resized_data(img: ImageBuf, nw: int, nh: int) -> Seq<u8> {
    sp_resized_bytes(img.data@, img.width as int, img.height as int, nw, nh)
}

/// Resize a buffer so its larger side becomes `max_dimension`, preserving
/// the aspect ratio; a source already at the target size is copied
/// unchanged.
pub fn resize_rgba_preserve_aspect(img: &ImageBuf, max_dimension: u32) -> (r: ImageBuf)
    requires
        img.wf(),
        1 <= max_dimension <= PREVIEW_MAX_DIM,
    ensures
        r.wf(),
        (r.width as int, r.height as int) == spec_target_size(
            img.width as int,
            img.height as int,
            max_dimension as int,
        ),
        r.data@ == sp_resized_data(*img, r.width as int, r.height as int),
{
    let (nw, nh) = target_size(img.width, img.height, max_dimension);
    if nw == img.width && nh == img.height {
        ImageBuf {
            width: img.width,
            height: img.height,
            data: vstd::slice::slice_to_vec(img.data.as_slice()),
        }
    } else {
        proof {
            assert((nw as int) * (nh as int) <= MAX_PIXELS) by (nonlinear_arith)
                requires
                    1 <= nw <= 3200,
                    1 <= nh <= 3200,
            ;
        }
        resize_rgba_exact(img, nw, nh)
    }
}

/// For every requested dimension already inside the preview band, clamping
/// is the identity, and an aspect-preserving resize of any non-degenerate
/// source puts exactly the requested dimension on the larger output side;
/// the shorter side carries the source ratio to within one source pixel
/// (see the aspect bound on the target-size computation).
pub proof fn lemma_resize_requested_side(w: int, h: int, d: int)
    requires
        1 <= w,
        1 <= h,
        crate::dims::PREVIEW_MIN_DIM <= d <= crate::dims::PREVIEW_MAX_DIM,
    ensures
        crate::dims::clamp_dim(d) == d,
        ({
            let (nw, nh) = spec_target_size(w, h, d);
            &&& (if nw >= nh {
                nw
            } else {
                nh
            }) == d
            &&& 1 <= nw
            &&& 1 <= nh
        }),
{
    crate::dims::lemma_target_size_larger_side(w, h, d);
}

/// Decode a byte stream and scale it down to at most `max_dimension` on the
/// larger side, never upscaling beyond the source's own size.
pub fn render_resized(bytes: &Vec<u8>, max_dimension: u32) -> (r: Result<ImageBuf, DecodeError>)
    requires
        1 <= max_dimension <= PREVIEW_MAX_DIM,
    ensures
        r matches Ok(img) ==> img.wf(),
        r is Ok <==> sp_decodable(bytes@),
        sp_image_backend_ok(bytes@) ==> (r matches Ok(img) ==> {
            let d = image_decode(bytes@);
            let side = if d.1 >= d.2 {
                d.1 as int
            } else {
                d.2 as int
            };
            let tgt = if max_dimension <= side {
                max_dimension as int
            } else {
                side
            };
            &&& (img.width as int, img.height as int) == spec_target_size(
                d.1 as int,
                d.2 as int,
                tgt,
            )
            &&& img.data@ == sp_resized_bytes(
                d.3,
                d.1 as int,
                d.2 as int,
                img.width as int,
                img.height as int,
            )
        }),
{
    let decoded = match decode_bytes(bytes) {
        Ok(img) => img,
        Err(e) => {
            return Err(e);
        },
    };
    let source_max = decoded.max_dim();
    let clamped = if max_dimension <= source_max {
        max_dimension
    } else {
        source_max
    };
    Ok(resize_rgba_preserve_aspect(&decoded, clamped))
}

} // verus!
