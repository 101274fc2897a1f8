//! The frame renderer: one still image to one text blob.
//!
//! Each row of the sampled grid becomes `width` glyphs and a terminating
//! newline; the blob is the rows in order, so it holds exactly
//! `width * height + height` characters. A degenerate size (width or height
//! zero) renders as the empty blob.

use vstd::prelude::*;
use crate::frame::Frame;
use crate::glyph::{glyph_of, glyph_str};

verus! {

/// The text of one rendered row: the glyphs of the first `w` samples,
/// then a newline.
pub open spec fn row_chars(row: Seq<u8>, w: int) -> Seq<char> {
    Seq::new(w as nat, |x: int| glyph_of(row[x])).push('\n')
}

/// The text of the first `h` rendered rows of a sample grid.
pub open spec fn blob_chars(grid: Seq<Seq<u8>>, w: int, h: int) -> Seq<char>
    decreases h,
{
    if h <= 0 {
        Seq::empty()
    } else {
        blob_chars(grid, w, h - 1) + row_chars(grid[h - 1], w)
    }
}

/// What `render` returns: the full blob, or the empty blob for a
/// degenerate size.
pub open spec fn render_chars(grid: Seq<Seq<u8>>, w: int, h: int) -> Seq<char> {
    if w <= 0 || h <= 0 {
        Seq::empty()
    } else {
        blob_chars(grid, w, h)
    }
}

pub proof fn lemma_blob_chars_len(grid: Seq<Seq<u8>>, w: int, h: int)
    requires
        w >= 0,
        h >= 0,
    ensures
        blob_chars(grid, w, h).len() == h * (w + 1),
    decreases h,
{
    if h > 0 {
        lemma_blob_chars_len(grid, w, h - 1);
        assert(blob_chars(grid, w, h) == blob_chars(grid, w, h - 1) + row_chars(grid[h - 1], w));
        assert(row_chars(grid[h - 1], w).len() == w + 1);
        assert(blob_chars(grid, w, h).len() == (h - 1) * (w + 1) + (w + 1));
        assert(h * (w + 1) == (h - 1) * (w + 1) + (w + 1)) by (nonlinear_arith);
        assert(blob_chars(grid, w, h).len() == h * (w + 1));
    } else {
        assert(h == 0);
        assert(blob_chars(grid, w, h).len() == 0);
        assert(blob_chars(grid, w, h).len() == h * (w + 1));
    }
}

/// A rendered blob holds exactly `w * h` glyphs and `h` newlines — for any
/// positive size; a degenerate size gives the empty blob.
pub proof fn lemma_render_chars_len(grid: Seq<Seq<u8>>, w: int, h: int)
    requires
        w >= 0,
        h >= 0,
    ensures
        w > 0 && h > 0 ==> render_chars(grid, w, h).len() == w * h + h,
        w == 0 || h == 0 ==> render_chars(grid, w, h).len() == 0,
{
    if w > 0 && h > 0 {
        lemma_blob_chars_len(grid, w, h);
        assert(h * (w + 1) == w * h + h) by (nonlinear_arith);
    }
}

/// Where each character of a blob comes from: position `y * (w + 1) + x`
/// holds the glyph of sample `(x, y)`, and position `y * (w + 1) + w` the
/// newline that ends row `y`.
pub proof fn lemma_blob_chars_index(grid: Seq<Seq<u8>>, w: int, h: int, x: int, y: int)
    requires
        0 <= x <= w,
        0 <= y < h,
    ensures
        x < w ==> blob_chars(grid, w, h)[y * (w + 1) + x] == glyph_of(grid[y][x]),
        x == w ==> blob_chars(grid, w, h)[y * (w + 1) + x] == '\n',
    decreases h,
{
    lemma_blob_chars_len(grid, w, h - 1);
    if y == h - 1 {
        assert(y * (w + 1) + x == blob_chars(grid, w, h - 1).len() + x) by (nonlinear_arith)
            requires
                blob_chars(grid, w, h - 1).len() == (h - 1) * (w + 1),
                y == h - 1,
        ;
    } else {
        lemma_blob_chars_index(grid, w, h - 1, x, y);
        assert(y * (w + 1) + x < (h - 1) * (w + 1)) by (nonlinear_arith)
            requires
                0 <= x <= w,
                0 <= y < h - 1,
        ;
    }
}

/// Renders one frame at size `width x height`: row by row, each sample's
/// glyph, a newline after each row. The frame must be at least that large.
pub fn render(frame: &Frame, width: u32, height: u32) -> (r: String)
    requires
        frame.wf(),
        width <= frame.width,
        height <= frame.height,
    ensures
        r@ == render_chars(frame.grid(), width as int, height as int),
{
    let mut buf = String::new();
    if width == 0 || height == 0 {
        return buf;
    }
    let mut y: u32 = 0;
    while y < height
        invariant
            frame.wf(),
            width <= frame.width,
            height <= frame.height,
            0 < width,
            0 < height,
            y <= height,
            buf@ == blob_chars(frame.grid(), width as int, y as int),
        decreases height - y,
    {
        let mut x: u32 = 0;
        while x < width
            invariant
                frame.wf(),
                width <= frame.width,
                height <= frame.height,
                0 < width,
                y < height,
                x <= width,
                buf@ == blob_chars(frame.grid(), width as int, y as int) + Seq::new(
                    x as nat,
                    |i: int| glyph_of(frame.grid()[y as int][i]),
                ),
            decreases width - x,
        {
            let s = glyph_str(frame.get(x, y));
            buf.append(s);
            proof {
                assert(buf@ =~= blob_chars(frame.grid(), width as int, y as int) + Seq::new(
                    (x + 1) as nat,
                    |i: int| glyph_of(frame.grid()[y as int][i]),
                ));
            }
            x = x + 1;
        }
        proof {
            reveal_strlit("\n");
        }
        buf.append("\n");
        proof {
            assert(buf@ =~= blob_chars(frame.grid(), width as int, (y + 1) as int));
        }
        y = y + 1;
    }
    buf
}

} // verus!
