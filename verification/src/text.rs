//! Small verified text helpers: equality and substring search over `&str`,
//! specified against the character sequences the strings denote.

use vstd::prelude::*;
use vstd::string::StrSliceExecFns;

verus! {

/// Character-wise string equality.
pub fn str_eq(a: &str, b: &str) -> (r: bool)
    ensures
        r == (a@ == b@),
{
    let la = a.unicode_len();
    let lb = b.unicode_len();
    if la != lb {
        return false;
    }
    let mut i: usize = 0;
    while i < la
        invariant
            la == a@.len(),
            lb == b@.len(),
            la == lb,
            i <= la,
            forall|j: int| 0 <= j < i ==> a@[j] == b@[j],
        decreases la - i,
    {
        if a.get_char(i) != b.get_char(i) {
            return false;
        }
        i += 1;
    }
    proof {
        assert(a@ =~= b@);
    }
    true
}

/// Whether `needle` occurs at position `i` of `hay`.
pub open spec fn match_at(hay: Seq<char>, needle: Seq<char>, i: int) -> bool {
    0 <= i && i + needle.len() <= hay.len() && hay.subrange(i, i + needle.len()) == needle
}

/// `needle` occurs as a contiguous run of characters inside `hay`.
pub open spec fn contains_seq(hay: Seq<char>, needle: Seq<char>) -> bool {
    exists|i: int| #[trigger] match_at(hay, needle, i)
}

/// Compares `needle` against `hay` at position `start`.
fn matches_at(hay: &str, needle: &str, start: usize) -> (r: bool)
    requires
        start + needle@.len() <= hay@.len(),
        hay@.len() <= usize::MAX,
    ensures
        r == match_at(hay@, needle@, start as int),
{
    let ln = needle.unicode_len();
    let mut j: usize = 0;
    while j < ln
        invariant
            ln == needle@.len(),
            start + ln <= hay@.len(),
            hay@.len() <= usize::MAX,
            j <= ln,
            forall|k: int| 0 <= k < j ==> hay@[start + k] == needle@[k],
        decreases ln - j,
    {
        if hay.get_char(start + j) != needle.get_char(j) {
            proof {
                assert(hay@.subrange(start as int, start + ln) != needle@) by {
                    assert(hay@.subrange(start as int, start + ln)[j as int] == hay@[start + j]);
                }
            }
            return false;
        }
        j += 1;
    }
    proof {
        assert(hay@.subrange(start as int, start + ln) =~= needle@);
    }
    true
}

/// Substring search, specified by `contains_seq`.
pub fn contains_str(hay: &str, needle: &str) -> (r: bool)
    ensures
        r == contains_seq(hay@, needle@),
{
    let lh = hay.unicode_len();
    let ln = needle.unicode_len();
    if ln > lh {
        return false;
    }
    let mut i: usize = 0;
    loop
        invariant
            lh == hay@.len(),
            ln == needle@.len(),
            ln <= lh,
            i <= lh - ln,
            forall|k: int| 0 <= k < i ==> !match_at(hay@, needle@, k),
        decreases lh - i,
    {
        if matches_at(hay, needle, i) {
            return true;
        }
        if i == lh - ln {
            proof {
                assert forall|k: int| !match_at(hay@, needle@, k) by {
                    if 0 <= k < i {
                    } else if k > i {
                        assert(k + needle@.len() > hay@.len());
                    }
                }
            }
            return false;
        }
        i += 1;
    }
}

} // verus!
