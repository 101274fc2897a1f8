//! The luminance-to-glyph ramp.
//!
//! A luminance sample in `0..=255` is shown as one character of a fixed
//! ramp of 13 glyphs, sparsest (space) to densest (`@`). Luminance 0 has
//! the sparsest bucket to itself; above it the buckets are 22 wide, the
//! last one running out to 255.

use vstd::prelude::*;

verus! {

/// The fixed ramp of 13 glyphs, ordered sparsest to densest.
pub open spec fn ramp() -> Seq<char> {
    seq![' ', '.', ',', '-', '~', ':', ';', '=', '!', '*', '#', '$', '@']
}

/// The ramp index (glyph density) of a luminance sample: 0 for luminance 0,
/// then one step per bucket of width 22, capped by the last bucket.
pub open spec fn density(lum: u8) -> int {
    if lum == 0 {
        0
    } else {
        (lum + 22) / 22
    }
}

/// The glyph shown for a luminance sample.
pub open spec fn glyph_of(lum: u8) -> char {
    ramp()[density(lum)]
}

/// Every luminance sample has a density inside the ramp, and density is
/// monotonic non-decreasing in luminance: a brighter sample never gets a
/// sparser glyph.
pub proof fn lemma_density_monotonic(a: u8, b: u8)
    requires
        a <= b,
    ensures
        0 <= density(a) <= density(b) <= 12,
{
    if a != 0 && b != 0 {
        vstd::arithmetic::div_mod::lemma_div_is_ordered(a + 22, b + 22, 22);
    }
}

/// Maps one luminance sample to its display glyph. Total: every sample of
/// `0..=255` has a glyph, and the result is always a glyph of the ramp.
pub fn get_pixel_char(luminosity: u8) -> (c: char)
    ensures
        c == glyph_of(luminosity),
        ramp().contains(c),
{
    proof {
        assert(ramp().contains(glyph_of(luminosity))) by {
            lemma_density_monotonic(luminosity, luminosity);
        }
    }
    match luminosity {
        0 => ' ',
        1..=21 => '.',
        22..=43 => ',',
        44..=65 => '-',
        66..=87 => '~',
        88..=109 => ':',
        110..=131 => ';',
        132..=153 => '=',
        154..=175 => '!',
        176..=197 => '*',
        198..=219 => '#',
        220..=241 => '$',
        _ => '@',
    }
}

/// The display glyph as a one-character string slice, for building frame
/// text without per-character conversion.
pub fn glyph_str(luminosity: u8) -> (s: &'static str)
    ensures
        s@.len() == 1,
        s@[0] == glyph_of(luminosity),
{
    match luminosity {
        0 => {
            proof {
                reveal_strlit(" ");
            }
            " "
        },
        1..=21 => {
            proof {
                reveal_strlit(".");
            }
            "."
        },
        22..=43 => {
            proof {
                reveal_strlit(",");
            }
            ","
        },
        44..=65 => {
            proof {
                reveal_strlit("-");
            }
            "-"
        },
        66..=87 => {
            proof {
                reveal_strlit("~");
            }
            "~"
        },
        88..=109 => {
            proof {
                reveal_strlit(":");
            }
            ":"
        },
        110..=131 => {
            proof {
                reveal_strlit(";");
            }
            ";"
        },
        132..=153 => {
            proof {
                reveal_strlit("=");
            }
            "="
        },
        154..=175 => {
            proof {
                reveal_strlit("!");
            }
            "!"
        },
        176..=197 => {
            proof {
                reveal_strlit("*");
            }
            "*"
        },
        198..=219 => {
            proof {
                reveal_strlit("#");
            }
            "#"
        },
        220..=241 => {
            proof {
                reveal_strlit("$");
            }
            "$"
        },
        _ => {
            proof {
                reveal_strlit("@");
            }
            "@"
        },
    }
}

} // verus!
