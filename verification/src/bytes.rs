//! Byte-sequence searching: the substring primitives that the head codec,
//! the framer and the request parsers are specified and proved against.

use vstd::prelude::*;

verus! {

/// `pat` occurs in `s` at position `i`.
pub open spec fn occurs_at(s: Seq<u8>, pat: Seq<u8>, i: int) -> bool {
    0 <= i && i + pat.len() <= s.len() && s.subrange(i, i + pat.len() as int) == pat
}

/// `pat` is a prefix of `s`.
pub open spec fn is_prefix(pat: Seq<u8>, s: Seq<u8>) -> bool {
    pat.len() <= s.len() && s.subrange(0, pat.len() as int) == pat
}

/// Index of the first occurrence of `pat` in `s`, or -1 if there is none.
pub open spec fn first_occ(s: Seq<u8>, pat: Seq<u8>) -> int
    decreases s.len(),
{
    if pat.len() == 0 {
        0
    } else if s.len() < pat.len() {
        -1
    } else if s.subrange(0, pat.len() as int) == pat {
        0
    } else if first_occ(s.skip(1), pat) < 0 {
        -1
    } else {
        first_occ(s.skip(1), pat) + 1
    }
}

/// `first_occ` names the first occurrence: an occurrence where it points,
/// none strictly before it, and -1 exactly when `pat` occurs nowhere.
pub proof fn lemma_first_occ(s: Seq<u8>, pat: Seq<u8>)
    ensures
        first_occ(s, pat) >= 0 ==> occurs_at(s, pat, first_occ(s, pat)),
        first_occ(s, pat) >= 0 ==> forall|j: int|
            0 <= j < first_occ(s, pat) ==> !occurs_at(s, pat, j),
        first_occ(s, pat) < 0 ==> forall|j: int| !occurs_at(s, pat, j),
    decreases s.len(),
{
    if pat.len() == 0 {
        assert(s.subrange(0, 0) =~= pat);
    } else if s.len() < pat.len() {
        assert forall|j: int| !occurs_at(s, pat, j) by {};
    } else if s.subrange(0, pat.len() as int) == pat {
    } else {
        lemma_first_occ(s.skip(1), pat);
        assert forall|j: int| 1 <= j && j + pat.len() <= s.len() implies
            (occurs_at(s, pat, j) <==> occurs_at(s.skip(1), pat, j - 1)) by {
            assert(s.skip(1).subrange(j - 1, j - 1 + pat.len() as int)
                =~= s.subrange(j, j + pat.len() as int));
        };
        if first_occ(s.skip(1), pat) < 0 {
            assert forall|j: int| !occurs_at(s, pat, j) by {
                if 1 <= j && j + pat.len() <= s.len() {
                    assert(!occurs_at(s.skip(1), pat, j - 1));
                }
            };
        } else {
            let f = first_occ(s.skip(1), pat);
            assert(occurs_at(s, pat, f + 1));
            assert forall|j: int| 0 <= j < f + 1 implies !occurs_at(s, pat, j) by {
                if 1 <= j {
                    assert(!occurs_at(s.skip(1), pat, j - 1));
                }
            };
        }
    }
}

/// Relies on str::from_utf8: it accepts exactly the valid UTF-8
/// encodings.
#[verifier::external_body]
pub fn is_valid_utf8(s: &[u8]) -> (r: bool)
    ensures
        r <==> vstd::utf8::valid_utf8(s@),
{
    core::str::from_utf8(s).is_ok()
}

/// Element-wise equality of two byte slices.
pub fn slice_eq(a: &[u8], b: &[u8]) -> (r: bool)
    ensures
        r <==> a@ == b@,
{
    if a.len() != b.len() {
        return false;
    }
    let n: usize = a.len();
    let mut i: usize = 0;
    while i < n
        invariant
            n == a@.len() && n == b@.len(),
            i <= n,
            forall|j: int| 0 <= j < i ==> a@[j] == b@[j],
        decreases n - i,
    {
        if a[i] != b[i] {
            return false;
        }
        i = i + 1;
    }
    proof {
        assert(a@ =~= b@);
    }
    true
}

/// Whether `pat` is a prefix of `s`.
pub fn starts_with(s: &[u8], pat: &[u8]) -> (r: bool)
    ensures
        r <==> is_prefix(pat@, s@),
{
    if pat.len() > s.len() {
        return false;
    }
    let head = vstd::slice::slice_subrange(s, 0, pat.len());
    slice_eq(head, pat)
}

/// Position of the first occurrence of `pat` in `s`, searching left to right.
pub fn find_sub(s: &[u8], pat: &[u8]) -> (r: Option<usize>)
    ensures
        match r {
            Some(i) => first_occ(s@, pat@) == i as int,
            None => first_occ(s@, pat@) < 0,
        },
{
    proof {
        lemma_first_occ(s@, pat@);
    }
    if pat.len() == 0 {
        return Some(0);
    }
    if s.len() < pat.len() {
        return None;
    }
    let n: usize = s.len();
    let plen: usize = pat.len();
    let last: usize = n - plen;
    let mut i: usize = 0;
    while i <= last
        invariant
            plen == pat@.len() && plen >= 1,
            n == s@.len(),
            last == n - plen,
            i <= last + 1,
            forall|j: int| 0 <= j < i ==> !occurs_at(s@, pat@, j),
        decreases last + 1 - i,
    {
        let window = vstd::slice::slice_subrange(s, i, i + plen);
        if slice_eq(window, pat) {
            proof {
                assert(occurs_at(s@, pat@, i as int));
                lemma_first_occ(s@, pat@);
                let f = first_occ(s@, pat@);
                if f < 0 {
                    assert(false);
                } else if f < i {
                    assert(!occurs_at(s@, pat@, f));
                    assert(false);
                } else if f > i {
                    assert(!occurs_at(s@, pat@, i as int));
                    assert(false);
                }
            }
            return Some(i);
        }
        i = i + 1;
    }
    proof {
        lemma_first_occ(s@, pat@);
        let f = first_occ(s@, pat@);
        if f >= 0 {
            assert(occurs_at(s@, pat@, f));
            assert(f > last);
            assert(false);
        }
    }
    None
}

} // verus!
