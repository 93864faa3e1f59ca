//! The canonical RGBA8 working buffer every decode produces and every
//! pipeline stage operates on.

use vstd::prelude::*;

verus! {

/// Largest width or height a working buffer may have.
pub const MAX_SIDE: u32 = 65535;

/// Largest pixel count a working buffer may have (256 mebipixels).
pub const MAX_PIXELS: u64 = 0x1000_0000;

/// A buffer of `w * h` four-byte pixels holds `4 * w * h` bytes.
pub proof fn lemma_rgba_len(a: int, b: int)
    ensures
        4 * a * b == 4 * (a * b),
{
    assert(4 * a * b == 4 * (a * b)) by (nonlinear_arith);
}

/// An RGBA8 image: `data` holds 4 bytes per pixel in row-major order.
#[derive(Debug)]
pub struct ImageBuf {
    pub width: u32,
    pub height: u32,
    pub data: Vec<u8>,
}

impl ImageBuf {
    /// A usable buffer: non-degenerate, bounded, and exactly 4 bytes per pixel.
    pub open spec fn wf(self) -> bool {
        &&& 1 <= self.width <= MAX_SIDE
        &&& 1 <= self.height <= MAX_SIDE
        &&& self.width * self.height <= MAX_PIXELS
        &&& self.data@.len() == 4 * self.width * self.height
    }

    /// The larger of width and height.
    pub open spec fn spec_max_dim(self) -> int {
        if self.width >= self.height {
            self.width as int
        } else {
            self.height as int
        }
    }

    /// The larger of width and height.
    pub fn max_dim(&self) -> (r: u32)
        ensures
            r == self.spec_max_dim(),
    {
        if self.width >= self.height {
            self.width
        } else {
            self.height
        }
    }

    /// An exact copy of this buffer.
    pub fn duplicate(&self) -> (r: ImageBuf)
        ensures
            r.width == self.width,
            r.height == self.height,
            r.data@ == self.data@,
    {
        ImageBuf {
            width: self.width,
            height: self.height,
            data: vstd::slice::slice_to_vec(self.data.as_slice()),
        }
    }

    /// An all-black opaque buffer of the given dimensions.
    pub fn filled_black(width: u32, height: u32) -> (r: ImageBuf)
        requires
            1 <= width <= MAX_SIDE,
            1 <= height <= MAX_SIDE,
            width * height <= MAX_PIXELS,
        ensures
            r.wf(),
            r.width == width,
            r.height == height,
            forall|i: int|
                0 <= i < r.data@.len() ==> r.data@[i] == (if i % 4 == 3 {
                    255u8
                } else {
                    0u8
                }),
    {
        proof {
            assert(4 * (width as int) * (height as int) <= 4 * MAX_PIXELS) by (nonlinear_arith)
                requires
                    (width as int) * (height as int) <= MAX_PIXELS,
            ;
        }
        let n: usize = 4 * (width as usize) * (height as usize);
        let mut data: Vec<u8> = Vec::new();
        let mut i: usize = 0;
        while i < n
            invariant
                i <= n,
                data@.len() == i,
                forall|j: int|
                    0 <= j < i ==> data@[j] == (if j % 4 == 3 {
                        255u8
                    } else {
                        0u8
                    }),
            decreases n - i,
        {
            if i % 4 == 3 {
                data.push(255u8);
            } else {
                data.push(0u8);
            }
            i = i + 1;
        }
        ImageBuf { width, height, data }
    }
}

} // verus!
