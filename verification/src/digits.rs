//! Zero-padded decimal digit strings, as byte sequences.
//!
//! Frame files are named with a fixed-width zero-padded decimal index;
//! the digit strings of that scheme are specified here.

use vstd::prelude::*;

verus! {

/// The ASCII byte of one decimal digit.
pub open spec fn digit_byte(d: int) -> u8 {
    (48 + d) as u8
}

/// `n` written in decimal, zero-padded on the left to exactly `k` digits,
/// most significant digit first. Digits above the `k`-th are dropped, so a
/// fixed-width naming scheme is faithful only while `n < 10^k`.
pub open spec fn padded_dec(n: nat, k: nat) -> Seq<u8>
    decreases k,
{
    if k == 0 {
        Seq::empty()
    } else {
        padded_dec(n / 10, (k - 1) as nat).push(digit_byte((n % 10) as int))
    }
}

pub proof fn lemma_padded_dec_len(n: nat, k: nat)
    ensures
        padded_dec(n, k).len() == k,
    decreases k,
{
    if k > 0 {
        lemma_padded_dec_len(n / 10, (k - 1) as nat);
    }
}

/// Appends the `k`-digit zero-padded decimal form of `n`.
pub fn push_padded_dec(buf: &mut Vec<u8>, n: u64, k: usize)
    ensures
        final(buf)@ == old(buf)@ + padded_dec(n as nat, k as nat),
    decreases k,
{
    if k == 0 {
        proof {
            assert(buf@ =~= buf@ + padded_dec(n as nat, 0));
        }
    } else {
        push_padded_dec(buf, n / 10, k - 1);
        let d: u8 = 48 + (n % 10) as u8;
        buf.push(d);
        proof {
            assert(d == digit_byte((n as nat % 10) as int));
            assert(old(buf)@ + padded_dec(n as nat / 10, (k - 1) as nat).push(d) =~= old(
                buf,
            )@ + padded_dec(n as nat, k as nat));
        }
    }
}

} // verus!
