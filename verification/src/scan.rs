//! Searching a byte sequence for a separator, and splitting around it.

use vstd::prelude::*;

verus! {

/// Carriage return, line feed: the line terminator.
pub open spec fn crlf() -> Seq<u8> {
    seq![0x0du8, 0x0au8]
}

/// A single space: the separator of the request line.
pub open spec fn space() -> Seq<u8> {
    seq![0x20u8]
}

/// Colon, space: the separator between a header's name and its value.
pub open spec fn colon_space() -> Seq<u8> {
    seq![0x3au8, 0x20u8]
}

/// Whether `pat` occurs in `s` at offset `i`.
pub open spec fn occurs_at(s: Seq<u8>, pat: Seq<u8>, i: int) -> bool {
    &&& 0 <= i
    &&& i + pat.len() <= s.len()
    &&& s.subrange(i, i + pat.len()) == pat
}

/// Whether `i` is the offset of the first occurrence of `pat` in `s`.
pub open spec fn first_at(s: Seq<u8>, pat: Seq<u8>, i: int) -> bool {
    &&& occurs_at(s, pat, i)
    &&& forall|j: int| 0 <= j < i ==> !occurs_at(s, pat, j)
}

/// The offset of the first occurrence of `pat` in `s`, if there is one.
pub open spec fn find(s: Seq<u8>, pat: Seq<u8>) -> Option<int> {
    if exists|i: int| occurs_at(s, pat, i) {
        Some(choose|i: int| first_at(s, pat, i))
    } else {
        None
    }
}

/// What lies before and after the first occurrence of `pat` in `s`.
pub open spec fn split_once(s: Seq<u8>, pat: Seq<u8>) -> Option<(Seq<u8>, Seq<u8>)> {
    match find(s, pat) {
        Some(i) => Some((s.subrange(0, i), s.subrange(i + pat.len(), s.len() as int))),
        None => None,
    }
}

/// A first occurrence is the one that `find` reports.
pub proof fn lemma_find_first(s: Seq<u8>, pat: Seq<u8>, i: int)
    requires
        first_at(s, pat, i),
    ensures
        find(s, pat) == Some(i),
{
    let k = choose|k: int| first_at(s, pat, k);
    assert(first_at(s, pat, k));
    assert(k == i) by {
        if k < i {
            assert(!occurs_at(s, pat, k));
        } else if i < k {
            assert(!occurs_at(s, pat, i));
        }
    }
}

/// Where the pattern occurs nowhere, `find` reports nothing.
pub proof fn lemma_find_none(s: Seq<u8>, pat: Seq<u8>)
    requires
        forall|j: int| 0 <= j ==> !occurs_at(s, pat, j),
    ensures
        find(s, pat) is None,
{
}

/// What `find` reports is a first occurrence.
pub proof fn lemma_find_is_first(s: Seq<u8>, pat: Seq<u8>)
    ensures
        match find(s, pat) {
            Some(i) => first_at(s, pat, i),
            None => forall|j: int| !occurs_at(s, pat, j),
        },
{
    if exists|i: int| occurs_at(s, pat, i) {
        let w = choose|i: int| occurs_at(s, pat, i);
        lemma_least_occurrence(s, pat, w);
    }
}

/// Below any occurrence there is a first one.
proof fn lemma_least_occurrence(s: Seq<u8>, pat: Seq<u8>, w: int)
    requires
        occurs_at(s, pat, w),
    ensures
        exists|i: int| first_at(s, pat, i),
    decreases w,
{
    if exists|j: int| 0 <= j < w && occurs_at(s, pat, j) {
        let j = choose|j: int| 0 <= j < w && occurs_at(s, pat, j);
        lemma_least_occurrence(s, pat, j);
    } else {
        assert(first_at(s, pat, w));
    }
}

/// A first occurrence stays the first one when bytes are appended.
pub proof fn lemma_find_extends(s: Seq<u8>, t: Seq<u8>, pat: Seq<u8>)
    ensures
        find(s, pat) matches Some(i) ==> find(s + t, pat) == Some(i),
{
    lemma_find_is_first(s, pat);
    match find(s, pat) {
        Some(i) => {
            assert((s + t).subrange(i, i + pat.len()) =~= s.subrange(i, i + pat.len()));
            assert forall|j: int| 0 <= j < i implies !occurs_at(s + t, pat, j) by {
                assert(!occurs_at(s, pat, j));
                assert((s + t).subrange(j, j + pat.len()) =~= s.subrange(j, j + pat.len()));
            }
            lemma_find_first(s + t, pat, i);
        },
        None => {},
    }
}

/// What `split_once` gave stays as it is when bytes are appended; they go
/// to the end of the second part.
pub proof fn lemma_split_extends(s: Seq<u8>, t: Seq<u8>, pat: Seq<u8>)
    ensures
        split_once(s, pat) matches Some((before, after)) ==> split_once(s + t, pat) == Some(
            (before, after + t),
        ),
{
    lemma_find_is_first(s, pat);
    lemma_find_extends(s, t, pat);
    match find(s, pat) {
        Some(i) => {
            assert((s + t).subrange(0, i) =~= s.subrange(0, i));
            assert((s + t).subrange(i + pat.len(), (s + t).len() as int) =~= s.subrange(
                i + pat.len(),
                s.len() as int,
            ) + t);
        },
        None => {},
    }
}

/// Whether `pat` occurs in `hay` at offset `i`.
pub fn occurs_here(hay: &[u8], pat: &[u8], i: usize) -> (r: bool)
    requires
        i + pat@.len() <= hay@.len(),
    ensures
        r == occurs_at(hay@, pat@, i as int),
{
    let n: usize = hay.len();
    let mut k: usize = 0;
    while k < pat.len()
        invariant
            k <= pat@.len(),
            i + pat@.len() <= hay@.len() == n,
            forall|t: int| 0 <= t < k ==> hay@[i + t] == pat@[t],
        decreases pat@.len() - k,
    {
        if hay[i + k] != pat[k] {
            proof {
                assert(hay@.subrange(i as int, i + pat@.len())[k as int] == hay@[i + k]);
            }
            return false;
        }
        k += 1;
    }
    proof {
        assert(hay@.subrange(i as int, i + pat@.len()) =~= pat@);
    }
    true
}

/// The offset of the first occurrence of `pat` in `hay`.
pub fn find_first(hay: &[u8], pat: &[u8]) -> (r: Option<usize>)
    ensures
        match r {
            Some(i) => find(hay@, pat@) == Some(i as int),
            None => find(hay@, pat@) is None,
        },
{
    if pat.len() > hay.len() {
        proof {
            lemma_find_none(hay@, pat@);
        }
        return None;
    }
    let last: usize = hay.len() - pat.len();
    let mut i: usize = 0;
    loop
        invariant
            last == hay@.len() - pat@.len(),
            i <= last,
            forall|j: int| 0 <= j < i ==> !occurs_at(hay@, pat@, j),
        decreases last - i,
    {
        if occurs_here(hay, pat, i) {
            proof {
                lemma_find_first(hay@, pat@, i as int);
            }
            return Some(i);
        }
        if i == last {
            proof {
                lemma_find_none(hay@, pat@);
            }
            return None;
        }
        i += 1;
    }
}

/// Whether `b` is ASCII white space: a space, a tab, a line feed, a form
/// feed or a carriage return.
pub open spec fn is_space(b: u8) -> bool {
    b == 0x20 || b == 0x09 || b == 0x0a || b == 0x0c || b == 0x0d
}

/// `s` without the white space that it begins with.
pub open spec fn trim_start(s: Seq<u8>) -> Seq<u8>
    decreases s.len(),
{
    if s.len() > 0 && is_space(s[0]) {
        trim_start(s.drop_first())
    } else {
        s
    }
}

/// `s` without the white space that it ends with.
pub open spec fn trim_end(s: Seq<u8>) -> Seq<u8>
    decreases s.len(),
{
    if s.len() > 0 && is_space(s.last()) {
        trim_end(s.drop_last())
    } else {
        s
    }
}

/// `s` without the white space around it.
pub open spec fn trim(s: Seq<u8>) -> Seq<u8> {
    trim_end(trim_start(s))
}

/// Whether `b` is ASCII white space.
pub fn is_space_byte(b: u8) -> (r: bool)
    ensures
        r == is_space(b),
{
    b == 0x20 || b == 0x09 || b == 0x0a || b == 0x0c || b == 0x0d
}

/// The part of `s` that is left when the white space around it is taken off.
pub fn trim_ascii<'a>(s: &'a [u8]) -> (r: &'a [u8])
    ensures
        r@ == trim(s@),
{
    let n: usize = s.len();
    let mut i: usize = 0;
    assert(s@.subrange(0, n as int) =~= s@);
    while i < n && is_space_byte(s[i])
        invariant
            i <= n,
            n == s@.len(),
            trim_start(s@) == trim_start(s@.subrange(i as int, n as int)),
        decreases n - i,
    {
        assert(s@.subrange(i as int, n as int).drop_first() =~= s@.subrange(i + 1, n as int));
        i += 1;
    }
    let ghost front = s@.subrange(i as int, n as int);
    assert(trim_start(s@) == front);
    let mut j: usize = n;
    while i < j && is_space_byte(s[j - 1])
        invariant
            i <= j <= n,
            n == s@.len(),
            front == s@.subrange(i as int, n as int),
            trim_end(front) == trim_end(s@.subrange(i as int, j as int)),
        decreases j - i,
    {
        assert(s@.subrange(i as int, j as int).drop_last() =~= s@.subrange(i as int, j - 1));
        j -= 1;
    }
    vstd::slice::slice_subrange(s, i, j)
}

} // verus!
