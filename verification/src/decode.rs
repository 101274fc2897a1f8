//! Decoding an encoded still image into a frame of luminance samples.
//!
//! The extraction tool leaves encoded still images on disk; the unverified
//! shell reads their bytes and hands them here. Decoding is the image
//! crate's work, behind a trusted wrapper that returns plain values;
//! everything after it — building the frame, sizing checks, rendering —
//! is verified. A malformed image is unrecoverable for the run: the
//! caller gets `None` and aborts rather than playing a partial buffer.

use vstd::prelude::*;
use crate::frame::{grid_of, Frame};
use crate::render::{render, render_chars};

verus! {

/// Whether a byte string decodes as an image at all. Decoding reads the
/// bytes alone, so this is a fixed predicate of them; its value is the
/// decoder's judgement, so it carries a name rather than a restatement of
/// the image formats.
pub uninterp spec fn decodes(bytes: Seq<u8>) -> bool;

/// The luminance grid an encoded image decodes to, one row of samples per
/// pixel row. It too is fixed by the bytes alone; its value is the
/// decoder's, so it carries a name rather than a restatement of the
/// decoder.
pub uninterp spec fn luma_of(bytes: Seq<u8>) -> Seq<Seq<u8>>;

/// Relies on image::load_from_memory and image::DynamicImage::to_luma8:
/// decoding reads the format from the bytes alone and succeeds or fails as
/// a function of them; `to_luma8` is the image's 8-bit luma channel, whose
/// raw buffer holds exactly one byte per pixel, row-major, `width * height`
/// in all.
#[verifier::external_body]
fn decode_raw(bytes: &Vec<u8>) -> (r: Option<(u32, u32, Vec<u8>)>)
    ensures
        r is Some <==> decodes(bytes@),
        match r {
            Some((w, h, buf)) => {
                &&& buf@.len() == w * h
                &&& grid_of(w as int, h as int, buf@) == luma_of(bytes@)
            },
            None => true,
        },
{
    match image::load_from_memory(bytes.as_slice()) {
        Ok(img) => {
            let luma = img.to_luma8();
            let width = luma.width();
            let height = luma.height();
            Some((width, height, luma.into_raw()))
        },
        Err(_) => None,
    }
}

/// Decodes an encoded still image into a frame of luminance samples:
/// exactly when the bytes decode, the frame holding their luminance grid.
pub fn decode_frame(bytes: &Vec<u8>) -> (r: Option<Frame>)
    ensures
        r is Some <==> decodes(bytes@),
        match r {
            Some(f) => f.wf() && f.grid() == luma_of(bytes@),
            None => true,
        },
{
    match decode_raw(bytes) {
        Some((width, height, buf)) => {
            match Frame::new(width, height, buf) {
                Some(f) => Some(f),
                None => {
                    // decode_raw says the buffer holds exactly one sample
                    // per pixel, so Frame::new cannot have refused it
                    proof {
                        assert(false);
                    }
                    None
                },
            }
        },
        None => None,
    }
}

/// Decodes one encoded still image and renders it at `width x height`:
/// exactly when the bytes decode to an image at least that large, the
/// rendered blob of the decoded luminance grid; `None` otherwise — an
/// undecodable or undersized image aborts the caller's run rather than
/// being clipped or skipped.
pub fn render_still(bytes: &Vec<u8>, width: u32, height: u32) -> (r: Option<String>)
    ensures
        r is Some <==> {
            &&& decodes(bytes@)
            &&& luma_of(bytes@).len() >= height
            &&& forall|y: int| 0 <= y < height ==> luma_of(bytes@)[y].len() >= width
        },
        match r {
            Some(s) => s@ == render_chars(luma_of(bytes@), width as int, height as int),
            None => true,
        },
{
    match decode_frame(bytes) {
        Some(f) => {
            proof {
                assert(luma_of(bytes@).len() == f.height);
                assert(forall|y: int|
                    0 <= y < f.height ==> #[trigger] luma_of(bytes@)[y].len() == f.width);
            }
            if height == 0 {
                Some(String::new())
            } else if width <= f.width && height <= f.height {
                Some(render(&f, width, height))
            } else {
                proof {
                    if height <= f.height {
                        assert(luma_of(bytes@)[0].len() == f.width);
                        assert(!(luma_of(bytes@)[0].len() >= width));
                    }
                }
                None
            }
        },
        None => None,
    }
}

} // verus!
