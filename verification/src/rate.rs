//! Frame rate: parsing the probe tool's rational, and the pacing interval.
//!
//! The media-inspection tool prints a frame rate as a rational such as
//! `30000/1001`, usually with trailing whitespace. Parsing is best-effort:
//! any output that is not `<digits>/<digits>` with a positive value that
//! fits the rate type — after trimming surrounding whitespace — counts as
//! absent, and pacing falls back to a fixed default of 30 frames per
//! second. The inter-frame delay is `1_000_000 / rate` microseconds.

use vstd::prelude::*;

verus! {

/// The fallback frame rate when probing yields nothing usable.
pub const FALLBACK_FRAME_RATE: u32 = 30;

/// ASCII whitespace, as trimmed from tool output.
pub open spec fn is_ws(b: u8) -> bool {
    b == 32 || b == 9 || b == 10 || b == 13 || b == 11 || b == 12
}

pub open spec fn trim_front(s: Seq<u8>) -> Seq<u8>
    decreases s.len(),
{
    if s.len() > 0 && is_ws(s[0]) {
        trim_front(s.skip(1))
    } else {
        s
    }
}

pub open spec fn trim_back(s: Seq<u8>) -> Seq<u8>
    decreases s.len(),
{
    if s.len() > 0 && is_ws(s[s.len() - 1]) {
        trim_back(s.drop_last())
    } else {
        s
    }
}

/// `s` without leading and trailing ASCII whitespace.
pub open spec fn trimmed(s: Seq<u8>) -> Seq<u8> {
    trim_back(trim_front(s))
}

pub open spec fn is_digit(b: u8) -> bool {
    48 <= b <= 57
}

pub open spec fn digits_only(s: Seq<u8>) -> bool {
    forall|i: int| 0 <= i < s.len() ==> is_digit(s[i])
}

/// The value of a decimal digit string, most significant digit first.
pub open spec fn dec_val(s: Seq<u8>) -> int
    decreases s.len(),
{
    if s.len() == 0 {
        0
    } else {
        dec_val(s.drop_last()) * 10 + (s.last() - 48)
    }
}

/// What parsing a field as a decimal number yields: a value only for a
/// nonempty all-digit string whose value fits.
pub open spec fn parse_dec(s: Seq<u8>) -> Option<u64> {
    if s.len() > 0 && digits_only(s) && dec_val(s) <= u64::MAX {
        Some(dec_val(s) as u64)
    } else {
        None
    }
}

/// The index of the first `/` in `s`, or -1 if there is none.
pub open spec fn first_slash(s: Seq<u8>) -> int
    decreases s.len(),
{
    if s.len() == 0 {
        -1
    } else if s[0] == 47 {
        0
    } else {
        let p = first_slash(s.skip(1));
        if p < 0 {
            -1
        } else {
            p + 1
        }
    }
}

/// What probing yields for a given tool output: the truncated quotient of
/// the rational around the first `/` of the trimmed output — but only when
/// both sides are plain decimal numbers that fit, the denominator is
/// nonzero, and the quotient is a positive representable rate. Anything
/// else counts as no parseable rational.
pub open spec fn frame_rate_of(s: Seq<u8>) -> Option<u32> {
    let t = trimmed(s);
    let p = first_slash(t);
    if p < 0 {
        None
    } else {
        match (parse_dec(t.subrange(0, p)), parse_dec(t.subrange(p + 1, t.len() as int))) {
            (Some(nv), Some(dv)) => {
                if dv > 0 {
                    let q = nv as int / dv as int;
                    if 1 <= q <= u32::MAX {
                        Some(q as u32)
                    } else {
                        None
                    }
                } else {
                    None
                }
            },
            _ => None,
        }
    }
}

proof fn lemma_trim_front_skip(s: Seq<u8>, k: int)
    requires
        0 <= k <= s.len(),
        forall|i: int| 0 <= i < k ==> is_ws(s[i]),
    ensures
        trim_front(s) == trim_front(s.skip(k)),
    decreases k,
{
    if k > 0 {
        assert(trim_front(s) == trim_front(s.skip(1)));
        lemma_trim_front_skip(s.skip(1), k - 1);
        assert(s.skip(1).skip(k - 1) =~= s.skip(k));
    } else {
        assert(s.skip(0) =~= s);
    }
}

proof fn lemma_trim_back_sub(s: Seq<u8>, k: int)
    requires
        0 <= k <= s.len(),
        forall|i: int| k <= i < s.len() ==> is_ws(s[i]),
    ensures
        trim_back(s) == trim_back(s.subrange(0, k)),
    decreases s.len() - k,
{
    if k < s.len() {
        assert(trim_back(s) == trim_back(s.drop_last()));
        lemma_trim_back_sub(s.drop_last(), k);
        assert(s.drop_last().subrange(0, k) =~= s.subrange(0, k));
    } else {
        assert(s.subrange(0, k) =~= s);
    }
}

proof fn lemma_first_slash_at(s: Seq<u8>, k: int)
    requires
        0 <= k < s.len(),
        s[k] == 47,
        forall|i: int| 0 <= i < k ==> s[i] != 47,
    ensures
        first_slash(s) == k,
    decreases k,
{
    if k > 0 {
        lemma_first_slash_at(s.skip(1), k - 1);
    }
}

proof fn lemma_first_slash_none(s: Seq<u8>)
    requires
        forall|i: int| 0 <= i < s.len() ==> s[i] != 47,
    ensures
        first_slash(s) == -1,
    decreases s.len(),
{
    if s.len() > 0 {
        lemma_first_slash_none(s.skip(1));
    }
}

proof fn lemma_dec_val_step(s: Seq<u8>, j: int)
    requires
        0 <= j < s.len(),
    ensures
        dec_val(s.subrange(0, j + 1)) == dec_val(s.subrange(0, j)) * 10 + (s[j] - 48),
{
    assert(s.subrange(0, j + 1).drop_last() =~= s.subrange(0, j));
}

proof fn lemma_dec_val_nonneg(s: Seq<u8>)
    requires
        digits_only(s),
    ensures
        dec_val(s) >= 0,
    decreases s.len(),
{
    if s.len() > 0 {
        assert(digits_only(s.drop_last()));
        lemma_dec_val_nonneg(s.drop_last());
    }
}

proof fn lemma_dec_val_prefix_le(s: Seq<u8>, j: int)
    requires
        digits_only(s),
        0 <= j <= s.len(),
    ensures
        dec_val(s.subrange(0, j)) <= dec_val(s),
    decreases s.len() - j,
{
    if j == s.len() {
        assert(s.subrange(0, j) =~= s);
    } else {
        lemma_dec_val_step(s, j);
        assert(digits_only(s.subrange(0, j)));
        lemma_dec_val_nonneg(s.subrange(0, j));
        lemma_dec_val_prefix_le(s, j + 1);
    }
}

/// Checks whether a byte is ASCII whitespace.
fn is_ws_byte(b: u8) -> (r: bool)
    ensures
        r == is_ws(b),
{
    b == 32 || b == 9 || b == 10 || b == 13 || b == 11 || b == 12
}

/// Parses `v[from..to]` as a decimal number.
fn parse_dec_range(v: &Vec<u8>, from: usize, to: usize) -> (r: Option<u64>)
    requires
        from <= to <= v@.len(),
    ensures
        r == parse_dec(v@.subrange(from as int, to as int)),
{
    let ghost s = v@.subrange(from as int, to as int);
    if from == to {
        return None;
    }
    let mut acc: u64 = 0;
    let mut i = from;
    while i < to
        invariant
            from <= i <= to <= v@.len(),
            s == v@.subrange(from as int, to as int),
            digits_only(s.subrange(0, i - from)),
            acc == dec_val(s.subrange(0, i - from)),
        decreases to - i,
    {
        let b = v[i];
        assert(b == s[i - from]);
        if b < 48 || b > 57 {
            assert(!digits_only(s));
            return None;
        }
        let d = (b - 48) as u64;
        proof {
            lemma_dec_val_step(s, i - from);
        }
        if acc > (u64::MAX - d) / 10 {
            proof {
                let m = (u64::MAX - d) as int;
                vstd::arithmetic::div_mod::lemma_fundamental_div_mod(m, 10);
                assert(acc * 10 >= (m / 10 + 1) * 10);
                assert(acc * 10 + d > u64::MAX);
                assert(dec_val(s.subrange(0, i - from + 1)) > u64::MAX);
                if digits_only(s) {
                    lemma_dec_val_prefix_le(s, i - from + 1);
                }
            }
            return None;
        }
        acc = acc * 10 + d;
        proof {
            assert(digits_only(s.subrange(0, i - from + 1)));
        }
        i = i + 1;
    }
    proof {
        assert(s.subrange(0, to - from) =~= s);
    }
    Some(acc)
}

/// Parses the probe tool's output as a frame rate: the first `/` of the
/// trimmed output splits numerator from denominator, and the truncated
/// quotient is the rate. Returns `None` exactly when `frame_rate_of` says
/// the output holds no parseable rational.
pub fn parse_frame_rate(out: &Vec<u8>) -> (r: Option<u32>)
    ensures
        r == frame_rate_of(out@),
{
    let n = out.len();
    let mut lo: usize = 0;
    while lo < n && is_ws_byte(out[lo])
        invariant
            0 <= lo <= n == out@.len(),
            forall|i: int| 0 <= i < lo ==> is_ws(out@[i]),
        decreases n - lo,
    {
        lo = lo + 1;
    }
    let mut hi: usize = n;
    while hi > lo && is_ws_byte(out[hi - 1])
        invariant
            lo <= hi <= n == out@.len(),
            forall|i: int| hi <= i < n ==> is_ws(out@[i]),
        decreases hi,
    {
        hi = hi - 1;
    }
    proof {
        lemma_trim_front_skip(out@, lo as int);
        lemma_trim_back_sub(out@.skip(lo as int), hi - lo);
        assert(out@.skip(lo as int).subrange(0, hi - lo) =~= out@.subrange(lo as int, hi as int));
        assert(trimmed(out@) == out@.subrange(lo as int, hi as int));
    }
    let ghost t = trimmed(out@);
    let mut p = lo;
    while p < hi && out[p] != 47
        invariant
            lo <= p <= hi <= out@.len(),
            forall|i: int| lo <= i < p ==> out@[i] != 47,
        decreases hi - p,
    {
        p = p + 1;
    }
    if p == hi {
        proof {
            lemma_first_slash_none(t);
        }
        return None;
    }
    proof {
        lemma_first_slash_at(t, p - lo);
    }
    let num = parse_dec_range(out, lo, p);
    let den = parse_dec_range(out, p + 1, hi);
    proof {
        assert(out@.subrange(lo as int, p as int) =~= t.subrange(0, p - lo));
        assert(out@.subrange(p + 1, hi as int) =~= t.subrange(p - lo + 1, t.len() as int));
    }
    match (num, den) {
        (Some(nv), Some(dv)) => {
            if dv == 0 {
                return None;
            }
            let q = nv / dv;
            if q >= 1 && q <= u32::MAX as u64 {
                Some(q as u32)
            } else {
                None
            }
        },
        _ => None,
    }
}

/// The frame rate used for pacing: the probed rate when one was parsed,
/// else the fixed fallback of 30.
pub fn effective_frame_rate(probed: Option<u32>) -> (r: u32)
    ensures
        r == match probed {
            Some(v) => v,
            None => FALLBACK_FRAME_RATE,
        },
{
    match probed {
        Some(v) => v,
        None => FALLBACK_FRAME_RATE,
    }
}

/// The frame rate a run plays at: an explicit request wins, else the
/// probed rate, else the fixed fallback of 30.
pub fn choose_frame_rate(requested: Option<u32>, probed: Option<u32>) -> (r: u32)
    ensures
        r == match (requested, probed) {
            (Some(v), _) => v,
            (None, Some(pv)) => pv,
            (None, None) => FALLBACK_FRAME_RATE,
        },
{
    match requested {
        Some(v) => v,
        None => effective_frame_rate(probed),
    }
}

/// The delay between two frames, in microseconds. A zero rate is invalid
/// and is refused here rather than dividing by zero.
pub fn frame_interval_micros(fps: u32) -> (r: u64)
    requires
        fps > 0,
    ensures
        r == 1_000_000int / fps as int,
{
    1_000_000u64 / (fps as u64)
}

} // verus!
