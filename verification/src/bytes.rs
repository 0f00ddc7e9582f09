//! Byte-string building blocks shared by the protocol and cache modules.

use vstd::prelude::*;
use vstd::utf8::*;

verus! {

/// Appends `src` to the end of `buf`.
pub fn push_bytes(buf: &mut Vec<u8>, src: &[u8])
    ensures
        final(buf)@ == old(buf)@ + src@,
{
    let ghost start = buf@;
    let mut i: usize = 0;
    while i < src.len()
        invariant
            0 <= i <= src@.len(),
            buf@ == start + src@.subrange(0, i as int),
        decreases src@.len() - i,
    {
        buf.push(src[i]);
        i = i + 1;
        proof {
            assert(src@.subrange(0, i as int) == src@.subrange(0, (i - 1) as int).push(src@[i - 1]));
        }
    }
    proof {
        assert(src@.subrange(0, src@.len() as int) == src@);
    }
}

/// Appends the UTF-8 encoding of `s` to the end of `buf`.
pub fn push_str(buf: &mut Vec<u8>, s: &str)
    ensures
        final(buf)@ == old(buf)@ + encode_utf8(s@),
{
    push_bytes(buf, s.as_bytes());
}


/// `pat` occurs in `hay` starting at index `i`.
pub open spec fn occurs_at(hay: Seq<u8>, pat: Seq<u8>, i: int) -> bool {
    &&& 0 <= i
    &&& i + pat.len() <= hay.len()
    &&& hay.subrange(i, i + pat.len()) == pat
}

/// `pat` occurs somewhere in `hay` (the empty pattern occurs everywhere).
pub open spec fn contains_seq(hay: Seq<u8>, pat: Seq<u8>) -> bool {
    exists|i: int| occurs_at(hay, pat, i)
}

/// Whether `pat` occurs in `hay` at index `i`.
fn matches_at(hay: &[u8], pat: &[u8], i: usize) -> (r: bool)
    requires
        i + pat@.len() <= hay@.len(),
    ensures
        r == occurs_at(hay@, pat@, i as int),
{
    let mut j: usize = 0;
    while j < pat.len()
        invariant
            i + pat@.len() <= hay@.len(),
            hay@.len() == hay.len(),
            0 <= j <= pat@.len(),
            forall|k: int| 0 <= k < j ==> hay@[i + k] == pat@[k],
        decreases pat@.len() - j,
    {
        if hay[i + j] != pat[j] {
            proof {
                assert(hay@.subrange(i as int, i + pat@.len())[j as int] != pat@[j as int]);
            }
            return false;
        }
        j = j + 1;
    }
    proof {
        assert(hay@.subrange(i as int, i + pat@.len()) =~= pat@);
    }
    true
}

/// Whether `pat` occurs anywhere in `hay`, as byte-wise substring search.
pub fn contains_bytes(hay: &[u8], pat: &[u8]) -> (r: bool)
    ensures
        r == contains_seq(hay@, pat@),
{
    if pat.len() > hay.len() {
        proof {
            assert forall|i: int| !occurs_at(hay@, pat@, i) by {}
        }
        return false;
    }
    let last: usize = hay.len() - pat.len();
    let mut i: usize = 0;
    while i < last
        invariant
            last + pat@.len() == hay@.len(),
            0 <= i <= last,
            forall|k: int| 0 <= k < i ==> !occurs_at(hay@, pat@, k),
        decreases last - i,
    {
        if matches_at(hay, pat, i) {
            return true;
        }
        i = i + 1;
    }
    if matches_at(hay, pat, last) {
        return true;
    }
    proof {
        assert forall|k: int| !occurs_at(hay@, pat@, k) by {
            if 0 <= k < i {
            } else if k == last {
            }
        }
    }
    false
}


/// Whether two byte strings are equal.
pub fn bytes_equal(a: &[u8], b: &[u8]) -> (r: bool)
    ensures
        r == (a@ == b@),
{
    if a.len() != b.len() {
        return false;
    }
    let mut i: usize = 0;
    while i < a.len()
        invariant
            a@.len() == b@.len(),
            0 <= i <= a@.len(),
            forall|k: int| 0 <= k < i ==> a@[k] == b@[k],
        decreases a@.len() - i,
    {
        if a[i] != b[i] {
            return false;
        }
        i = i + 1;
    }
    proof {
        assert(a@ =~= b@);
    }
    true
}

} // verus!
