//! Ordering of frame file names.
//!
//! Extracted frames are named with a fixed-width zero-padded decimal
//! index, so sorting the file names byte-wise lexicographically puts them
//! in temporal order; `lemma_frame_name_order` is that claim, proved for
//! every pair of indices the scheme can hold. `sort_names` is the sort the
//! playback scheduler uses on the discovered names.

use vstd::prelude::*;
use crate::digits::{padded_dec, lemma_padded_dec_len, push_padded_dec};

verus! {

/// Byte-wise lexicographic order; a proper prefix comes first.
pub open spec fn lex_le(a: Seq<u8>, b: Seq<u8>) -> bool
    decreases a.len(),
{
    if a.len() == 0 {
        true
    } else if b.len() == 0 {
        false
    } else if a[0] < b[0] {
        true
    } else if a[0] > b[0] {
        false
    } else {
        lex_le(a.skip(1), b.skip(1))
    }
}

/// Strict byte-wise lexicographic order.
pub open spec fn lex_lt(a: Seq<u8>, b: Seq<u8>) -> bool
    decreases b.len(),
{
    if b.len() == 0 {
        false
    } else if a.len() == 0 {
        true
    } else if a[0] < b[0] {
        true
    } else if a[0] > b[0] {
        false
    } else {
        lex_lt(a.skip(1), b.skip(1))
    }
}

/// The strict order is the reflexive one without equality.
pub proof fn lemma_lex_lt_iff(a: Seq<u8>, b: Seq<u8>)
    ensures
        lex_lt(a, b) <==> (lex_le(a, b) && a != b),
    decreases a.len() + b.len(),
{
    if a.len() > 0 && b.len() > 0 && a[0] == b[0] {
        lemma_lex_lt_iff(a.skip(1), b.skip(1));
        if a.skip(1) == b.skip(1) {
            assert forall|i: int| 0 <= i < a.len() implies a[i] == b[i] by {
                if i > 0 {
                    assert(a[i] == a.skip(1)[i - 1]);
                    assert(b[i] == b.skip(1)[i - 1]);
                }
            }
            assert(a =~= b);
        }
        assert(a == b ==> a.skip(1) == b.skip(1));
    } else if a.len() == 0 && b.len() == 0 {
        assert(a =~= b);
    }
}

/// Any two byte strings are ordered one way or the other.
pub proof fn lemma_lex_le_total(a: Seq<u8>, b: Seq<u8>)
    ensures
        lex_le(a, b) || lex_le(b, a),
    decreases a.len(),
{
    if a.len() > 0 && b.len() > 0 && a[0] == b[0] {
        lemma_lex_le_total(a.skip(1), b.skip(1));
    }
}

pub proof fn lemma_lex_le_trans(a: Seq<u8>, b: Seq<u8>, c: Seq<u8>)
    requires
        lex_le(a, b),
        lex_le(b, c),
    ensures
        lex_le(a, c),
    decreases a.len(),
{
    if a.len() > 0 && b.len() > 0 && c.len() > 0 && a[0] == b[0] && b[0] == c[0] {
        lemma_lex_le_trans(a.skip(1), b.skip(1), c.skip(1));
    }
}

proof fn lemma_lex_le_common_prefix(a: Seq<u8>, b: Seq<u8>, i: int)
    requires
        0 <= i <= a.len(),
        i <= b.len(),
        forall|j: int| 0 <= j < i ==> a[j] == b[j],
    ensures
        lex_le(a, b) == lex_le(a.skip(i), b.skip(i)),
    decreases i,
{
    if i > 0 {
        lemma_lex_le_common_prefix(a.skip(1), b.skip(1), i - 1);
        assert(a.skip(1).skip(i - 1) =~= a.skip(i));
        assert(b.skip(1).skip(i - 1) =~= b.skip(i));
    } else {
        assert(a.skip(0) =~= a);
        assert(b.skip(0) =~= b);
    }
}

/// Compares two byte strings lexicographically.
pub fn lex_le_bytes(a: &Vec<u8>, b: &Vec<u8>) -> (r: bool)
    ensures
        r == lex_le(a@, b@),
{
    let mut i: usize = 0;
    while i < a.len() && i < b.len()
        invariant
            i <= a@.len(),
            i <= b@.len(),
            forall|j: int| 0 <= j < i ==> a@[j] == b@[j],
        decreases a@.len() - i,
    {
        let x = a[i];
        let y = b[i];
        if x < y {
            proof {
                lemma_lex_le_common_prefix(a@, b@, i as int);
            }
            return true;
        }
        if x > y {
            proof {
                lemma_lex_le_common_prefix(a@, b@, i as int);
            }
            return false;
        }
        i = i + 1;
    }
    proof {
        lemma_lex_le_common_prefix(a@, b@, i as int);
    }
    i == a.len()
}

/// The names are in byte-wise lexicographic order.
pub open spec fn sorted_names(s: Seq<Vec<u8>>) -> bool {
    forall|i: int, j: int| 0 <= i < j < s.len() ==> lex_le(s[i]@, s[j]@)
}

/// Sorts frame file names into byte-wise lexicographic order, keeping
/// exactly the given names.
pub fn sort_names(names: &mut Vec<Vec<u8>>)
    ensures
        sorted_names(final(names)@),
        final(names)@.to_multiset() == old(names)@.to_multiset(),
{
    let mut i: usize = 1;
    while i < names.len()
        invariant
            1 <= i,
            names@.len() == old(names)@.len(),
            i <= names@.len() || names@.len() <= 1,
            sorted_names(names@.subrange(0, if i <= names@.len() {
                i as int
            } else {
                names@.len() as int
            })),
            names@.to_multiset() == old(names)@.to_multiset(),
        decreases names@.len() - i,
    {
        let ghost pre = names@;
        let x = names.remove(i);
        proof {
            assert(names@.subrange(0, i as int) =~= pre.subrange(0, i as int));
        }
        let mut j: usize = i;
        while j > 0 && !lex_le_bytes(&names[j - 1], &x)
            invariant
                j <= i <= names@.len(),
                names@ == pre.remove(i as int),
                x == pre[i as int],
                names@.subrange(0, i as int) == pre.subrange(0, i as int),
                sorted_names(pre.subrange(0, i as int)),
                forall|k: int| j <= k < i ==> lex_le(x@, names@[k]@),
            decreases j,
        {
            proof {
                lemma_lex_le_total(names@[j - 1]@, x@);
            }
            j = j - 1;
        }
        names.insert(j, x);
        proof {
            broadcast use vstd::seq_lib::group_to_multiset_ensures;
            broadcast use vstd::multiset::group_multiset_axioms;

            assert(pre.contains(pre[i as int]));
            assert(names@.to_multiset() =~= pre.to_multiset());
            let ghost cur = names@;
            assert forall|a: int, b: int| 0 <= a < b < i + 1 implies lex_le(
                cur[a]@,
                cur[b]@,
            ) by {
                let prefix = pre.subrange(0, i as int);
                if b < j {
                    assert(lex_le(prefix[a]@, prefix[b]@) ==> lex_le(cur[a]@, cur[b]@));
                } else if b == j {
                    if a < j - 1 {
                        lemma_lex_le_trans(prefix[a]@, prefix[j - 1]@, x@);
                    }
                } else if a == j {
                    assert(cur[b] == prefix[b - 1]);
                } else if a < j {
                    if j <= b - 1 < i {
                        if a < j - 1 {
                            lemma_lex_le_trans(prefix[a]@, prefix[j - 1]@, x@);
                        }
                        lemma_lex_le_trans(cur[a]@, x@, prefix[b - 1]@);
                    }
                } else {
                    assert(cur[a] == prefix[a - 1] && cur[b] == prefix[b - 1]);
                }
            }
            assert(sorted_names(names@.subrange(0, i + 1)));
        }
        i = i + 1;
    }
    proof {
        if names@.len() > 1 {
            assert(names@.subrange(0, names@.len() as int) =~= names@);
        }
    }
}

/// 10 to the `k`-th power.
pub open spec fn pow10(k: nat) -> nat
    decreases k,
{
    if k == 0 {
        1
    } else {
        10 * pow10((k - 1) as nat)
    }
}

proof fn lemma_lex_lt_push_strict(a: Seq<u8>, x: u8, y: u8)
    requires
        x < y,
    ensures
        lex_lt(a.push(x), a.push(y)),
    decreases a.len(),
{
    if a.len() == 0 {
        assert(a.push(x)[0] == x && a.push(y)[0] == y);
    } else {
        lemma_lex_lt_push_strict(a.skip(1), x, y);
        assert(a.push(x).skip(1) =~= a.skip(1).push(x));
        assert(a.push(y).skip(1) =~= a.skip(1).push(y));
    }
}

proof fn lemma_lex_lt_same_len_push(a: Seq<u8>, b: Seq<u8>, x: u8, y: u8)
    requires
        a.len() == b.len(),
        lex_lt(a, b),
    ensures
        lex_lt(a.push(x), b.push(y)),
    decreases a.len(),
{
    if a[0] == b[0] {
        lemma_lex_lt_same_len_push(a.skip(1), b.skip(1), x, y);
        assert(a.push(x).skip(1) =~= a.skip(1).push(x));
        assert(b.push(y).skip(1) =~= b.skip(1).push(y));
    }
}

proof fn lemma_padded_dec_lt(i: nat, j: nat, k: nat)
    requires
        i < j,
        j < pow10(k),
    ensures
        lex_lt(padded_dec(i, k), padded_dec(j, k)),
    decreases k,
{
    let k1 = (k - 1) as nat;
    vstd::arithmetic::div_mod::lemma_fundamental_div_mod(i as int, 10);
    vstd::arithmetic::div_mod::lemma_fundamental_div_mod(j as int, 10);
    vstd::arithmetic::div_mod::lemma_div_is_ordered(i as int, j as int, 10);
    assert(j / 10 < pow10(k1));
    lemma_padded_dec_len(i / 10, k1);
    lemma_padded_dec_len(j / 10, k1);
    if i / 10 < j / 10 {
        lemma_padded_dec_lt(i / 10, j / 10, k1);
        lemma_lex_lt_same_len_push(
            padded_dec(i / 10, k1),
            padded_dec(j / 10, k1),
            (48 + i % 10) as u8,
            (48 + j % 10) as u8,
        );
    } else {
        assert(i % 10 < j % 10);
        lemma_lex_lt_push_strict(padded_dec(i / 10, k1), (48 + i % 10) as u8, (48 + j % 10) as u8);
    }
}

proof fn lemma_lex_lt_append(a: Seq<u8>, b: Seq<u8>, s: Seq<u8>, t: Seq<u8>)
    requires
        a.len() == b.len(),
        lex_lt(a, b),
    ensures
        lex_lt(a + s, b + t),
    decreases a.len(),
{
    assert((a + s).len() > 0 && (b + t).len() > 0);
    assert((a + s)[0] == a[0] && (b + t)[0] == b[0]);
    if a[0] == b[0] {
        lemma_lex_lt_append(a.skip(1), b.skip(1), s, t);
        assert((a + s).skip(1) =~= a.skip(1) + s);
        assert((b + t).skip(1) =~= b.skip(1) + t);
    }
}

proof fn lemma_lex_lt_prefix(p: Seq<u8>, a: Seq<u8>, b: Seq<u8>)
    requires
        lex_lt(a, b),
    ensures
        lex_lt(p + a, p + b),
    decreases p.len(),
{
    if p.len() == 0 {
        assert(p + a =~= a);
        assert(p + b =~= b);
    } else {
        lemma_lex_lt_prefix(p.skip(1), a, b);
        assert((p + a)[0] == p[0] && (p + b)[0] == p[0]);
        assert((p + a).skip(1) =~= p.skip(1) + a);
        assert((p + b).skip(1) =~= p.skip(1) + b);
    }
}

/// The naming scheme orders: for any two indices the seven-digit scheme
/// can hold, the name of the earlier frame is strictly lexicographically
/// smaller, so sorting the names sorts the frames temporally.
pub proof fn lemma_frame_name_order(i: nat, j: nat)
    requires
        i < j,
        j < 10_000_000,
    ensures
        lex_lt(frame_name(i), frame_name(j)),
{
    assert(pow10(7) == 10_000_000) by {
        reveal_with_fuel(pow10, 8);
    }
    lemma_padded_dec_lt(i, j, 7);
    lemma_padded_dec_len(i, 7);
    lemma_padded_dec_len(j, 7);
    lemma_lex_lt_append(padded_dec(i, 7), padded_dec(j, 7), frame_name_suffix(), frame_name_suffix());
    lemma_lex_lt_prefix(
        frame_name_prefix(),
        padded_dec(i, 7) + frame_name_suffix(),
        padded_dec(j, 7) + frame_name_suffix(),
    );
    assert(frame_name(i) =~= frame_name_prefix() + (padded_dec(i, 7) + frame_name_suffix()));
    assert(frame_name(j) =~= frame_name_prefix() + (padded_dec(j, 7) + frame_name_suffix()));
}

/// A run of frame file names with consecutive ascending indices is already
/// in the order `sort_names` establishes: what the extraction tool writes,
/// sorted lexicographically, is the frames in temporal order.
pub proof fn lemma_ordered_names_are_sorted(s: Seq<Vec<u8>>, base: nat)
    requires
        base + s.len() <= 10_000_000,
        forall|k: int| 0 <= k < s.len() ==> s[k]@ == frame_name((base + k) as nat),
    ensures
        sorted_names(s),
{
    assert forall|i: int, j: int| 0 <= i < j < s.len() implies lex_le(s[i]@, s[j]@) by {
        lemma_frame_name_order((base + i) as nat, (base + j) as nat);
        lemma_lex_lt_iff(s[i]@, s[j]@);
    }
}

/// The bytes of the prefix `frame-` of an extracted frame's file name.
pub open spec fn frame_name_prefix() -> Seq<u8> {
    seq![102u8, 114u8, 97u8, 109u8, 101u8, 45u8]
}

/// The bytes of the suffix `.png` of an extracted frame's file name.
pub open spec fn frame_name_suffix() -> Seq<u8> {
    seq![46u8, 112u8, 110u8, 103u8]
}

/// The file name of the frame with the given index: the prefix, the index
/// zero-padded to seven digits, the suffix.
pub open spec fn frame_name(index: nat) -> Seq<u8> {
    frame_name_prefix() + padded_dec(index, 7) + frame_name_suffix()
}

/// Builds the file name of the frame with the given index. The scheme is
/// faithful only while the index fits its seven digits.
pub fn frame_file_name(index: u64) -> (r: Vec<u8>)
    requires
        index < 10_000_000,
    ensures
        r@ == frame_name(index as nat),
{
    let mut buf: Vec<u8> = Vec::new();
    buf.push(102);
    buf.push(114);
    buf.push(97);
    buf.push(109);
    buf.push(101);
    buf.push(45);
    proof {
        assert(buf@ =~= frame_name_prefix());
    }
    push_padded_dec(&mut buf, index, 7);
    buf.push(46);
    buf.push(112);
    buf.push(110);
    buf.push(103);
    proof {
        assert(buf@ =~= frame_name(index as nat));
    }
    buf
}

} // verus!
