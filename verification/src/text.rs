//! Character-level text helpers: equality and substring search, specified
//! over the character sequences of the strings involved.

use vstd::prelude::*;
use vstd::string::StrSliceExecFns;

verus! {

/// The needle occurs in the haystack starting at position `i`.
pub open spec fn matches_at(hay: Seq<char>, needle: Seq<char>, i: int) -> bool {
    &&& 0 <= i
    &&& i + needle.len() <= hay.len()
    &&& hay.subrange(i, i + needle.len()) == needle
}

/// The needle occurs somewhere in the haystack.
pub open spec fn contains_seq(hay: Seq<char>, needle: Seq<char>) -> bool {
    exists|i: int| matches_at(hay, needle, i)
}

/// Character-wise string equality.
pub fn str_eq(a: &str, b: &str) -> (r: bool)
    ensures
        r == (a@ == b@),
{
    let an = a.unicode_len();
    let bn = b.unicode_len();
    if an != bn {
        return false;
    }
    let mut i: usize = 0;
    while i < an
        invariant
            i <= an,
            an == a@.len(),
            an == b@.len(),
            forall|j: int| 0 <= j < i ==> a@[j] == b@[j],
        decreases an - i,
    {
        if a.get_char(i) != b.get_char(i) {
            return false;
        }
        i = i + 1;
    }
    proof {
        assert(a@ =~= b@);
    }
    true
}

/// The prefix opens the string.
pub open spec fn starts_with_seq(s: Seq<char>, prefix: Seq<char>) -> bool {
    &&& prefix.len() <= s.len()
    &&& s.subrange(0, prefix.len() as int) == prefix
}

/// Whether `s` starts with `prefix`, character-wise.
pub fn str_starts_with(s: &str, prefix: &str) -> (r: bool)
    ensures
        r == starts_with_seq(s@, prefix@),
{
    let sn = s.unicode_len();
    let pn = prefix.unicode_len();
    if pn > sn {
        return false;
    }
    let mut j: usize = 0;
    while j < pn
        invariant
            pn <= sn,
            sn == s@.len(),
            pn == prefix@.len(),
            j <= pn,
            forall|t: int| 0 <= t < j ==> s@[t] == prefix@[t],
        decreases pn - j,
    {
        if s.get_char(j) != prefix.get_char(j) {
            proof {
                if starts_with_seq(s@, prefix@) {
                    assert(s@.subrange(0, pn as int)[j as int] == prefix@[j as int]);
                }
            }
            return false;
        }
        j = j + 1;
    }
    proof {
        assert(s@.subrange(0, pn as int) =~= prefix@);
    }
    true
}

/// Whether `needle` occurs in `hay`, character-wise.
pub fn str_contains(hay: &str, needle: &str) -> (r: bool)
    ensures
        r == contains_seq(hay@, needle@),
{
    let hn = hay.unicode_len();
    let nn = needle.unicode_len();
    if nn > hn {
        proof {
            assert(!contains_seq(hay@, needle@)) by {
                if contains_seq(hay@, needle@) {
                    let k = choose|k: int| matches_at(hay@, needle@, k);
                }
            }
        }
        return false;
    }
    if nn == 0 {
        proof {
            assert(hay@.subrange(0, 0) =~= needle@);
            assert(matches_at(hay@, needle@, 0));
        }
        return true;
    }
    let last = hn - nn;
    let mut i: usize = 0;
    while i <= last
        invariant
            nn <= hn,
            last == hn - nn,
            hn == hay@.len(),
            nn == needle@.len(),
            i <= last + 1,
            nn >= 1,
            forall|k: int| 0 <= k < i ==> !matches_at(hay@, needle@, k),
        decreases last + 1 - i,
    {
        let mut j: usize = 0;
        let mut ok = true;
        while j < nn && ok
            invariant
                i + nn <= hn,
                hn == hay@.len(),
                nn == needle@.len(),
                j <= nn,
                ok ==> forall|t: int| 0 <= t < j ==> hay@[i + t] == needle@[t],
                !ok ==> !matches_at(hay@, needle@, i as int),
            decreases nn - j, (if ok { 1int } else { 0int }),
        {
            if hay.get_char(i + j) != needle.get_char(j) {
                proof {
                    if matches_at(hay@, needle@, i as int) {
                        assert(hay@.subrange(i as int, i + nn)[j as int] == needle@[j as int]);
                    }
                }
                ok = false;
            } else {
                j = j + 1;
            }
        }
        if ok {
            proof {
                assert(hay@.subrange(i as int, i + nn) =~= needle@);
                assert(matches_at(hay@, needle@, i as int));
            }
            return true;
        }
        i = i + 1;
    }
    proof {
        assert(!contains_seq(hay@, needle@)) by {
            if contains_seq(hay@, needle@) {
                let k = choose|k: int| matches_at(hay@, needle@, k);
                assert(0 <= k < i);
            }
        }
    }
    false
}

} // verus!
