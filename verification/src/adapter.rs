//! The command lines handed to the external tools.
//!
//! Frame extraction shells out to an external video-processing tool, told
//! to decode the input, scale every frame to the playback resolution, and
//! write still images under the cache directory with the zero-padded
//! naming scheme. Building that argument list is the computed part of the
//! adapter and is verified here; spawning the process is left to the
//! unverified shell.

use vstd::prelude::*;

verus! {

/// The character of one decimal digit.
pub open spec fn digit_char(d: int) -> char {
    if d == 0 {
        '0'
    } else if d == 1 {
        '1'
    } else if d == 2 {
        '2'
    } else if d == 3 {
        '3'
    } else if d == 4 {
        '4'
    } else if d == 5 {
        '5'
    } else if d == 6 {
        '6'
    } else if d == 7 {
        '7'
    } else if d == 8 {
        '8'
    } else {
        '9'
    }
}

/// `n` written in decimal, most significant digit first.
pub open spec fn dec_chars(n: nat) -> Seq<char>
    decreases n,
{
    if n < 10 {
        seq![digit_char(n as int)]
    } else {
        dec_chars(n / 10).push(digit_char((n % 10) as int))
    }
}

/// One decimal digit as a string slice.
fn digit_str(d: u64) -> (s: &'static str)
    requires
        d < 10,
    ensures
        s@.len() == 1,
        s@[0] == digit_char(d as int),
{
    match d {
        0 => {
            proof {
                reveal_strlit("0");
            }
            "0"
        },
        1 => {
            proof {
                reveal_strlit("1");
            }
            "1"
        },
        2 => {
            proof {
                reveal_strlit("2");
            }
            "2"
        },
        3 => {
            proof {
                reveal_strlit("3");
            }
            "3"
        },
        4 => {
            proof {
                reveal_strlit("4");
            }
            "4"
        },
        5 => {
            proof {
                reveal_strlit("5");
            }
            "5"
        },
        6 => {
            proof {
                reveal_strlit("6");
            }
            "6"
        },
        7 => {
            proof {
                reveal_strlit("7");
            }
            "7"
        },
        8 => {
            proof {
                reveal_strlit("8");
            }
            "8"
        },
        _ => {
            proof {
                reveal_strlit("9");
            }
            "9"
        },
    }
}

/// Appends the decimal form of `n`.
fn push_dec_chars(buf: &mut String, n: u64)
    ensures
        final(buf)@ == old(buf)@ + dec_chars(n as nat),
    decreases n,
{
    if n >= 10 {
        push_dec_chars(buf, n / 10);
    }
    buf.append(digit_str(n % 10));
    proof {
        if n < 10 {
            assert(old(buf)@ + dec_chars(n as nat) =~= buf@);
        } else {
            assert(old(buf)@ + dec_chars(n as nat) =~= buf@);
        }
    }
}

/// The scale filter handed to the extraction tool: `scale=<w>:<h>`.
pub open spec fn scale_arg(w: u32, h: u32) -> Seq<char> {
    "scale="@ + dec_chars(w as nat) + ":"@ + dec_chars(h as nat)
}

/// The output pattern handed to the extraction tool: the cache directory,
/// a slash, and the zero-padded frame naming scheme.
pub open spec fn pattern_arg(cache: Seq<char>) -> Seq<char> {
    cache + "/frame-%07d.png"@
}

/// The argument list of the frame-extraction command: decode `input`,
/// scale every frame to `width x height`, and write still images under
/// `cache` with the zero-padded naming scheme.
pub fn extraction_args(input: &str, cache: &str, width: u32, height: u32) -> (args: Vec<String>)
    ensures
        args@.len() == 7,
        args@[0]@ == "-i"@,
        args@[1]@ == input@,
        args@[2]@ == "-f"@,
        args@[3]@ == "image2"@,
        args@[4]@ == "-vf"@,
        args@[5]@ == scale_arg(width, height),
        args@[6]@ == pattern_arg(cache@),
{
    let mut args: Vec<String> = Vec::new();
    args.push(String::from_str("-i"));
    args.push(String::from_str(input));
    args.push(String::from_str("-f"));
    args.push(String::from_str("image2"));
    args.push(String::from_str("-vf"));
    let mut scale = String::from_str("scale=");
    push_dec_chars(&mut scale, width as u64);
    scale.append(":");
    push_dec_chars(&mut scale, height as u64);
    proof {
        assert(scale@ =~= scale_arg(width, height));
    }
    args.push(scale);
    let mut pat = String::from_str(cache);
    pat.append("/frame-%07d.png");
    proof {
        assert(pat@ =~= pattern_arg(cache@));
    }
    args.push(pat);
    args
}

} // verus!
