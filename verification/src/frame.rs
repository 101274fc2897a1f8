//! A decoded still image, held as plain luminance samples.
//!
//! The renderer reads nothing of an image but its luma channel, so a frame
//! is a row-major buffer of one `u8` sample per pixel. Decoding an encoded
//! image into this form is done by `decode::decode_frame`.

use vstd::prelude::*;

verus! {

/// The samples of a `width x height` image, read row-major from a flat
/// buffer: one sequence per row, top row first, pixel `(x, y)` at index
/// `y * width + x`.
pub open spec fn grid_of(width: int, height: int, samples: Seq<u8>) -> Seq<Seq<u8>> {
    Seq::new(height as nat, |y: int| Seq::new(width as nat, |x: int| samples[y * width + x]))
}

/// One decoded still image: `samples` holds the luminance of pixel
/// `(x, y)` at index `y * width + x`.
pub struct Frame {
    pub width: u32,
    pub height: u32,
    pub samples: Vec<u8>,
}

impl Frame {
    /// Well-formed: exactly one sample per pixel.
    pub open spec fn wf(self) -> bool {
        self.samples@.len() == self.width * self.height
    }

    /// The luminance sample of pixel `(x, y)`.
    pub open spec fn sample(self, x: int, y: int) -> u8 {
        self.samples@[y * self.width + x]
    }

    /// The samples as a grid: one sequence per row, top row first.
    pub open spec fn grid(self) -> Seq<Seq<u8>> {
        grid_of(self.width as int, self.height as int, self.samples@)
    }

    /// Builds a frame from a sample buffer, if the buffer holds exactly one
    /// sample per pixel of the claimed size.
    pub fn new(width: u32, height: u32, samples: Vec<u8>) -> (r: Option<Frame>)
        ensures
            match r {
                Some(f) => {
                    &&& f.width == width
                    &&& f.height == height
                    &&& f.samples == samples
                    &&& f.wf()
                },
                None => samples@.len() != width * height,
            },
    {
        proof {
            assert((width as int) * (height as int) <= 0xffff_ffff * 0xffff_ffff)
                by (nonlinear_arith)
                requires
                    width <= 0xffff_ffffu32,
                    height <= 0xffff_ffffu32,
            ;
        }
        if samples.len() as u64 == (width as u64) * (height as u64) {
            Some(Frame { width, height, samples })
        } else {
            None
        }
    }

    /// Reads the luminance sample of pixel `(x, y)`.
    pub fn get(&self, x: u32, y: u32) -> (s: u8)
        requires
            self.wf(),
            x < self.width,
            y < self.height,
        ensures
            s == self.sample(x as int, y as int),
    {
        let n = self.samples.len();
        proof {
            assert((y as int) * (self.width as int) + (x as int) < (self.width as int) * (
            self.height as int)) by (nonlinear_arith)
                requires
                    x < self.width,
                    y < self.height,
            ;
            assert((self.width as int) * (self.height as int) == self.samples@.len());
            assert((y as usize) as int == y as int);
            assert((x as usize) as int == x as int);
            assert((self.width as usize) as int == self.width as int);
            assert((y as int) * (self.width as int) <= (y as int) * (self.width as int) + (
            x as int) <= usize::MAX as int);
        }
        self.samples[(y as usize) * (self.width as usize) + (x as usize)]
    }
}

} // verus!
