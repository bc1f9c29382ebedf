//! Verified text searching: equality, prefix, suffix and substring tests
//! over the character sequences of `str` values.

use vstd::prelude::*;

verus! {

pub open spec fn seq_has_prefix(s: Seq<char>, p: Seq<char>) -> bool {
    p.len() <= s.len() && s.subrange(0, p.len() as int) == p
}

pub open spec fn seq_has_suffix(s: Seq<char>, p: Seq<char>) -> bool {
    p.len() <= s.len() && s.subrange(s.len() - p.len(), s.len() as int) == p
}

/// `n` occurs in `s` starting at index `i`.
pub open spec fn seq_contains_at(s: Seq<char>, n: Seq<char>, i: int) -> bool {
    0 <= i && i + n.len() <= s.len() && s.subrange(i, i + n.len()) == n
}

/// `n` occurs somewhere in `s`.
pub open spec fn seq_contains(s: Seq<char>, n: Seq<char>) -> bool {
    exists|i: int| seq_contains_at(s, n, i)
}

/// Character-wise string equality.
pub fn str_eq(a: &str, b: &str) -> (r: bool)
    ensures
        r == (a@ == b@),
{
    let alen = a.unicode_len();
    let blen = b.unicode_len();
    if alen != blen {
        assert(a@ != b@) by {
            assert(a@.len() != b@.len());
        }
        return false;
    }
    let mut i: usize = 0;
    while i < alen
        invariant
            i <= alen,
            alen == a@.len(),
            alen == b@.len(),
            forall|j: int| 0 <= j < i ==> a@[j] == b@[j],
        decreases alen - i,
    {
        if a.get_char(i) != b.get_char(i) {
            assert(a@ != b@) by {
                assert(a@[i as int] != b@[i as int]);
            }
            return false;
        }
        i = i + 1;
    }
    proof {
        assert(a@ =~= b@);
    }
    true
}

/// Whether the characters of `p` open the string `s`.
pub fn str_has_prefix(s: &str, p: &str) -> (r: bool)
    ensures
        r == seq_has_prefix(s@, p@),
{
    let slen = s.unicode_len();
    let plen = p.unicode_len();
    if plen > slen {
        return false;
    }
    let mut i: usize = 0;
    while i < plen
        invariant
            i <= plen,
            plen == p@.len(),
            slen == s@.len(),
            plen <= slen,
            forall|j: int| 0 <= j < i ==> s@[j] == p@[j],
        decreases plen - i,
    {
        if s.get_char(i) != p.get_char(i) {
            assert(!seq_has_prefix(s@, p@)) by {
                assert(s@.subrange(0, p@.len() as int)[i as int] != p@[i as int]);
            }
            return false;
        }
        i = i + 1;
    }
    proof {
        assert(s@.subrange(0, p@.len() as int) =~= p@);
    }
    true
}

/// Whether the characters of `p` close the string `s`.
pub fn str_has_suffix(s: &str, p: &str) -> (r: bool)
    ensures
        r == seq_has_suffix(s@, p@),
{
    let slen = s.unicode_len();
    let plen = p.unicode_len();
    if plen > slen {
        return false;
    }
    let off: usize = slen - plen;
    let mut i: usize = 0;
    while i < plen
        invariant
            i <= plen,
            plen == p@.len(),
            slen == s@.len(),
            plen <= slen,
            off == slen - plen,
            forall|j: int| 0 <= j < i ==> s@[off + j] == p@[j],
        decreases plen - i,
    {
        if s.get_char(off + i) != p.get_char(i) {
            assert(!seq_has_suffix(s@, p@)) by {
                assert(s@.subrange(s@.len() - p@.len(), s@.len() as int)[i as int] != p@[
                    i as int
                ]);
            }
            return false;
        }
        i = i + 1;
    }
    proof {
        assert(s@.subrange(s@.len() - p@.len(), s@.len() as int) =~= p@);
    }
    true
}

/// Whether `n` occurs in `s` starting at character index `i`.
fn matches_at(s: &str, n: &str, i: usize) -> (r: bool)
    requires
        i + n@.len() <= s@.len(),
    ensures
        r == seq_contains_at(s@, n@, i as int),
{
    let slen = s.unicode_len();
    let nlen = n.unicode_len();
    let mut j: usize = 0;
    while j < nlen
        invariant
            j <= nlen,
            nlen == n@.len(),
            slen == s@.len(),
            i + nlen <= slen,
            forall|k: int| 0 <= k < j ==> s@[i + k] == n@[k],
        decreases nlen - j,
    {
        if s.get_char(i + j) != n.get_char(j) {
            assert(!seq_contains_at(s@, n@, i as int)) by {
                assert(s@.subrange(i as int, i + n@.len())[j as int] != n@[j as int]);
            }
            return false;
        }
        j = j + 1;
    }
    proof {
        assert(s@.subrange(i as int, i + n@.len()) =~= n@);
    }
    true
}

/// Whether the characters of `n` occur anywhere in `s`.
pub fn str_contains(s: &str, n: &str) -> (r: bool)
    ensures
        r == seq_contains(s@, n@),
{
    let slen = s.unicode_len();
    let nlen = n.unicode_len();
    if nlen > slen {
        assert(!seq_contains(s@, n@)) by {
            assert(forall|i: int| !seq_contains_at(s@, n@, i));
        }
        return false;
    }
    if nlen == 0 {
        assert(seq_contains(s@, n@)) by {
            assert(s@.subrange(0, 0) =~= n@);
            assert(seq_contains_at(s@, n@, 0));
        }
        return true;
    }
    let last: usize = slen - nlen;
    let mut i: usize = 0;
    while i <= last
        invariant
            i <= last + 1,
            slen == s@.len(),
            nlen == n@.len(),
            1 <= nlen,
            last == slen - nlen,
            forall|k: int| 0 <= k < i ==> !seq_contains_at(s@, n@, k),
        decreases last + 1 - i,
    {
        if matches_at(s, n, i) {
            assert(seq_contains(s@, n@));
            return true;
        }
        i = i + 1;
    }
    assert(!seq_contains(s@, n@)) by {
        assert(forall|k: int| seq_contains_at(s@, n@, k) ==> 0 <= k < i);
    }
    false
}

/// The characters of `s` from index `from` on, as an owned string.
pub fn str_tail_owned(s: &str, from: usize) -> (r: String)
    requires
        from <= s@.len(),
    ensures
        r@ == s@.skip(from as int),
{
    let len = s.unicode_len();
    let t = s.substring_char(from, len);
    proof {
        assert(t@ =~= s@.skip(from as int));
    }
    t.to_owned()
}

} // verus!
