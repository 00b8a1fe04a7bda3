//! ASCII validation and whitespace trimming over byte sequences.
//!
//! The catalog's text fields are fixed-width ASCII, padded with whitespace.
//! Everything here works on raw bytes: a byte is ASCII when it is below 128,
//! and whitespace is the ASCII whitespace set.

use vstd::prelude::*;

verus! {

/// A single byte is ASCII.
pub open spec fn is_ascii_byte(b: u8) -> bool {
    b < 128
}

/// Every byte of the sequence is ASCII.
pub open spec fn is_ascii(s: Seq<u8>) -> bool {
    forall|i: int| 0 <= i < s.len() ==> is_ascii_byte(#[trigger] s[i])
}

/// The byte is ASCII whitespace: space, tab, line feed, vertical tab,
/// form feed or carriage return.
pub open spec fn is_ascii_space(b: u8) -> bool {
    b == 32 || b == 9 || b == 10 || b == 11 || b == 12 || b == 13
}

/// The sequence with its leading whitespace removed.
pub open spec fn trim_start(s: Seq<u8>) -> Seq<u8>
    decreases s.len(),
{
    if s.len() > 0 && is_ascii_space(s[0]) {
        trim_start(s.subrange(1, s.len() as int))
    } else {
        s
    }
}

/// The sequence with its trailing whitespace removed.
pub open spec fn trim_end(s: Seq<u8>) -> Seq<u8>
    decreases s.len(),
{
    if s.len() > 0 && is_ascii_space(s[s.len() - 1]) {
        trim_end(s.subrange(0, s.len() - 1))
    } else {
        s
    }
}

/// The sequence with leading and trailing whitespace removed.
pub open spec fn trim(s: Seq<u8>) -> Seq<u8> {
    trim_end(trim_start(s))
}

/// `trim_start` returns the suffix of `s` that starts at the first
/// non-whitespace byte.
pub proof fn lemma_trim_start_suffix(s: Seq<u8>)
    ensures
        trim_start(s).len() <= s.len(),
        forall|i: int|
            0 <= i < trim_start(s).len() ==> #[trigger] trim_start(s)[i] == s[
                i + s.len() - trim_start(s).len()
            ],
        trim_start(s).len() > 0 ==> !is_ascii_space(trim_start(s)[0]),
    decreases s.len(),
{
    if s.len() > 0 && is_ascii_space(s[0]) {
        lemma_trim_start_suffix(s.subrange(1, s.len() as int));
    }
}

/// `trim_end` returns the prefix of `s` that ends at the last
/// non-whitespace byte.
pub proof fn lemma_trim_end_prefix(s: Seq<u8>)
    ensures
        trim_end(s).len() <= s.len(),
        forall|i: int| 0 <= i < trim_end(s).len() ==> #[trigger] trim_end(s)[i] == s[i],
        trim_end(s).len() > 0 ==> !is_ascii_space(trim_end(s)[trim_end(s).len() - 1]),
    decreases s.len(),
{
    if s.len() > 0 && is_ascii_space(s[s.len() - 1]) {
        lemma_trim_end_prefix(s.subrange(0, s.len() - 1));
    }
}

/// A trimmed sequence is no longer than its source, keeps only bytes of the
/// source, and carries no whitespace at either end.
pub proof fn lemma_trim_properties(s: Seq<u8>)
    ensures
        trim(s).len() <= s.len(),
        forall|i: int|
            0 <= i < trim(s).len() ==> #[trigger] trim(s)[i] == s[
                i + s.len() - trim_start(s).len()
            ],
        trim(s).len() > 0 ==> !is_ascii_space(trim(s)[0]),
        trim(s).len() > 0 ==> !is_ascii_space(trim(s)[trim(s).len() - 1]),
        is_ascii(s) ==> is_ascii(trim(s)),
{
    lemma_trim_start_suffix(s);
    lemma_trim_end_prefix(trim_start(s));
}

/// The byte is ASCII whitespace.
pub fn is_space_byte(b: u8) -> (r: bool)
    ensures
        r == is_ascii_space(b),
{
    b == 32 || b == 9 || b == 10 || b == 11 || b == 12 || b == 13
}

/// Every byte of the slice is ASCII.
pub fn all_ascii(s: &[u8]) -> (r: bool)
    ensures
        r == is_ascii(s@),
{
    let mut i: usize = 0;
    while i < s.len()
        invariant
            i <= s@.len(),
            forall|j: int| 0 <= j < i ==> is_ascii_byte(#[trigger] s@[j]),
        decreases s@.len() - i,
    {
        if s[i] >= 128 {
            return false;
        }
        i += 1;
    }
    true
}

/// Copies the slice with leading and trailing ASCII whitespace removed.
pub fn trim_ascii(s: &[u8]) -> (r: Vec<u8>)
    ensures
        r@ == trim(s@),
{
    proof {
        assert(s@.subrange(0, s@.len() as int) =~= s@);
    }
    let mut lo: usize = 0;
    while lo < s.len() && is_space_byte(s[lo])
        invariant
            lo <= s@.len(),
            trim_start(s@) == trim_start(s@.subrange(lo as int, s@.len() as int)),
        decreases s@.len() - lo,
    {
        proof {
            let tail = s@.subrange(lo as int, s@.len() as int);
            assert(tail.subrange(1, tail.len() as int) =~= s@.subrange(
                lo + 1,
                s@.len() as int,
            ));
        }
        lo += 1;
    }
    proof {
        assert(trim_start(s@) == s@.subrange(lo as int, s@.len() as int));
    }
    let mut hi: usize = s.len();
    while hi > lo && is_space_byte(s[hi - 1])
        invariant
            lo <= hi <= s@.len(),
            trim_start(s@) == s@.subrange(lo as int, s@.len() as int),
            trim_end(s@.subrange(lo as int, s@.len() as int)) == trim_end(
                s@.subrange(lo as int, hi as int),
            ),
        decreases hi,
    {
        proof {
            let cur = s@.subrange(lo as int, hi as int);
            assert(cur.subrange(0, cur.len() - 1) =~= s@.subrange(lo as int, hi - 1));
        }
        hi -= 1;
    }
    proof {
        assert(trim(s@) == s@.subrange(lo as int, hi as int));
    }
    let out = vstd::slice::slice_to_vec(vstd::slice::slice_subrange(s, lo, hi));
    out
}

} // verus!
