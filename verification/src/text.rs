//! Character-level helpers: turning a string into its characters and back,
//! comparing a slice of characters against a pattern, and rendering a number
//! in decimal.

use vstd::prelude::*;
use vstd::string::StrSliceExecFns;

use crate::grammar::{digit, digit_val};

verus! {

/// The characters of a string, as a vector.
pub fn chars_vec(s: &str) -> (r: Vec<char>)
    ensures
        r@ == s@,
{
    let n = s.unicode_len();
    let mut r: Vec<char> = Vec::new();
    let mut i: usize = 0;
    while i < n
        invariant
            i <= n,
            n == s@.len(),
            r@ == s@.subrange(0, i as int),
        decreases n - i,
    {
        r.push(s.get_char(i));
        assert(s@.subrange(0, i + 1 as int) =~= s@.subrange(0, i as int).push(s@[i as int]));
        i = i + 1;
    }
    assert(s@.subrange(0, n as int) =~= s@);
    r
}

/// Relies on `String::from_iter` over characters: the string made of exactly
/// the characters of `v`, in order.
#[verifier::external_body]
pub(crate) fn string_from_chars(v: &Vec<char>) -> (r: String)
    ensures
        r@ == v@,
{
    String::from_iter(v.iter().copied())
}

/// Whether the characters of `cs` between `start` and `end` spell `pat`.
pub fn seg_matches(cs: &Vec<char>, start: usize, end: usize, pat: &str) -> (r: bool)
    requires
        start <= end <= cs@.len(),
    ensures
        r == (cs@.subrange(start as int, end as int) == pat@),
{
    let plen = pat.unicode_len();
    if end - start != plen {
        assert(cs@.subrange(start as int, end as int).len() != pat@.len());
        return false;
    }
    let mut j: usize = 0;
    while j < plen
        invariant
            j <= plen,
            plen == pat@.len(),
            start + plen == end <= cs@.len(),
            forall|k: int| 0 <= k < j ==> cs@.subrange(start as int, end as int)[k] == pat@[k],
        decreases plen - j,
    {
        if cs[start + j] != pat.get_char(j) {
            assert(cs@.subrange(start as int, end as int)[j as int] != pat@[j as int]);
            return false;
        }
        j = j + 1;
    }
    assert(cs@.subrange(start as int, end as int) =~= pat@);
    true
}

/// Whether two strings hold the same characters.
pub fn str_eq(a: &str, b: &str) -> (r: bool)
    ensures
        r == (a@ == b@),
{
    let alen = a.unicode_len();
    let blen = b.unicode_len();
    if alen != blen {
        return false;
    }
    let mut j: usize = 0;
    while j < alen
        invariant
            j <= alen,
            alen == a@.len() == b@.len(),
            forall|k: int| 0 <= k < j ==> a@[k] == b@[k],
        decreases alen - j,
    {
        if a.get_char(j) != b.get_char(j) {
            return false;
        }
        j = j + 1;
    }
    assert(a@ =~= b@);
    true
}

/// The character for a single decimal digit.
pub open spec fn digit_char(d: nat) -> char {
    ((48 + d) as u8) as char
}

/// The decimal rendering of a number: its digits, most significant first,
/// with no leading zeros (a lone `0` for zero).
pub open spec fn dec_chars(n: nat) -> Seq<char>
    decreases n,
{
    if n < 10 {
        seq![digit_char(n)]
    } else {
        dec_chars(n / 10).push(digit_char(n % 10))
    }
}

/// A sequence, reversed.
pub open spec fn rev_seq(s: Seq<char>) -> Seq<char> {
    Seq::new(s.len(), |i: int| s[s.len() - 1 - i])
}

/// A decimal digit's character reads back as the digit.
pub proof fn lemma_digit_char(d: nat)
    requires
        d < 10,
    ensures
        digit(digit_char(d)),
        digit_val(digit_char(d)) == d,
{
}

/// Append the decimal rendering of `n` to `out`.
pub fn push_dec(out: &mut Vec<char>, n: u64)
    ensures
        final(out)@ == old(out)@ + dec_chars(n as nat),
{
    let mut tmp: Vec<char> = Vec::new();
    let d0: u64 = n % 10;
    tmp.push((48 + d0 as u8) as char);
    let mut cur: u64 = n / 10;
    proof {
        assert(rev_seq(tmp@) =~= seq![digit_char((n % 10) as nat)]);
        if cur == 0 {
            assert(dec_chars(n as nat) =~= rev_seq(tmp@));
        } else {
            assert(dec_chars(n as nat) =~= dec_chars((n / 10) as nat) + rev_seq(tmp@));
        }
    }
    while cur > 0
        invariant
            cur > 0 ==> dec_chars(n as nat) == dec_chars(cur as nat) + rev_seq(tmp@),
            cur == 0 ==> dec_chars(n as nat) == rev_seq(tmp@),
        decreases cur,
    {
        let d: u64 = cur % 10;
        tmp.push((48 + d as u8) as char);
        proof {
            let prev = tmp@.drop_last();
            assert(rev_seq(tmp@) =~= seq![digit_char((cur % 10) as nat)] + rev_seq(prev));
        }
        let prev_cur: Ghost<u64> = Ghost(cur);
        cur = cur / 10;
        proof {
            if cur == 0 {
                assert(dec_chars(prev_cur@ as nat) =~= seq![digit_char((prev_cur@ % 10) as nat)]);
                assert(dec_chars(n as nat) =~= rev_seq(tmp@));
            } else {
                assert(dec_chars(prev_cur@ as nat) =~= dec_chars(cur as nat).push(
                    digit_char((prev_cur@ % 10) as nat),
                ));
                assert(dec_chars(cur as nat).push(digit_char((prev_cur@ % 10) as nat))
                    + rev_seq(tmp@.drop_last()) =~= dec_chars(cur as nat) + rev_seq(tmp@));
                assert(dec_chars(n as nat) =~= dec_chars(cur as nat) + rev_seq(tmp@));
            }
        }
    }
    let len = tmp.len();
    let mut j: usize = len;
    while j > 0
        invariant
            j <= len,
            len == tmp@.len(),
            dec_chars(n as nat) == rev_seq(tmp@),
            out@ == old(out)@ + rev_seq(tmp@).subrange(0, (len - j) as int),
        decreases j,
    {
        j = j - 1;
        out.push(tmp[j]);
        assert(rev_seq(tmp@).subrange(0, (len - j) as int) =~= rev_seq(tmp@).subrange(
            0,
            (len - j - 1) as int,
        ).push(tmp@[j as int]));
    }
    assert(rev_seq(tmp@).subrange(0, len as int) =~= rev_seq(tmp@));
}

/// Append the characters of `pat` to `out`.
pub fn push_str_chars(out: &mut Vec<char>, pat: &str)
    ensures
        final(out)@ == old(out)@ + pat@,
{
    let plen = pat.unicode_len();
    let mut j: usize = 0;
    while j < plen
        invariant
            j <= plen,
            plen == pat@.len(),
            out@ == old(out)@ + pat@.subrange(0, j as int),
        decreases plen - j,
    {
        out.push(pat.get_char(j));
        assert(pat@.subrange(0, j + 1 as int) =~= pat@.subrange(0, j as int).push(pat@[j as int]));
        j = j + 1;
    }
    assert(pat@.subrange(0, plen as int) =~= pat@);
}

} // verus!
