//! String slices as views of bytes: validation, and splitting that keeps the
//! pieces valid UTF-8.

use vstd::prelude::*;
use vstd::utf8::*;
use vstd::string::StringSliceAdditionalSpecFns;
use crate::scan::{find_first, lemma_find_is_first, occurs_at, occurs_here, split_once};

verus! {

/// Whether every byte of `s` is below `0x80`.
pub open spec fn all_ascii(s: Seq<u8>) -> bool {
    forall|i: int| 0 <= i < s.len() ==> s[i] <= 0x7f
}

/// Bytes that are all ASCII form valid UTF-8.
pub proof fn lemma_ascii_is_utf8(s: Seq<u8>)
    requires
        all_ascii(s),
    ensures
        valid_utf8(s),
{
    assert(s.subrange(0, 0) =~= Seq::<u8>::empty());
    assert(partial_valid_utf8(s, 0));
    partial_valid_utf8_extend_ascii_block(s, 0, s.len() as int);
    assert(s.subrange(0, s.len() as int) =~= s);
}

/// Two string slices with the same bytes hold the same characters.
pub proof fn lemma_same_bytes_same_text(a: &str, b: &str)
    requires
        a.spec_bytes() == b.spec_bytes(),
    ensures
        a@ == b@,
{
    encode_utf8_decode_utf8(a@);
    encode_utf8_decode_utf8(b@);
}

/// In valid UTF-8 a position that follows `n` leading ASCII bytes lies between
/// two characters.
pub proof fn lemma_boundary_after_ascii(s: Seq<u8>, n: int)
    requires
        valid_utf8(s),
        0 <= n <= s.len(),
        forall|j: int| 0 <= j < n ==> s[j] <= 0x7f,
    ensures
        is_char_boundary(s, n),
    decreases n,
{
    if n > 0 {
        assert(is_leading_byte_width_1(s[0]));
        let rest = pop_first_scalar(s);
        assert(rest =~= s.subrange(1, s.len() as int));
        assert forall|j: int| 0 <= j < n - 1 implies rest[j] <= 0x7f by {
            assert(rest[j] == s[j + 1]);
        }
        lemma_boundary_after_ascii(rest, n - 1);
    }
}

/// In valid UTF-8 an ASCII pattern is surrounded by character boundaries, and
/// what lies before and after it is valid UTF-8.
pub proof fn lemma_split_around_ascii(s: Seq<u8>, pat: Seq<u8>, i: int)
    requires
        valid_utf8(s),
        occurs_at(s, pat, i),
        pat.len() > 0,
        all_ascii(pat),
    ensures
        is_char_boundary(s, i),
        valid_utf8(s.subrange(0, i)),
        valid_utf8(s.subrange(i, s.len() as int)),
        is_char_boundary(s.subrange(i, s.len() as int), pat.len() as int),
        valid_utf8(s.subrange(i + pat.len(), s.len() as int)),
{
    let tail = s.subrange(i, s.len() as int);
    assert(s[i] == s.subrange(i, i + pat.len())[0]);
    assert(is_leading_byte_width_1(s[i]));
    is_char_boundary_iff_is_leading_byte(s, i);
    valid_utf8_split(s, i);
    assert forall|j: int| 0 <= j < pat.len() implies tail[j] <= 0x7f by {
        assert(tail[j] == s.subrange(i, i + pat.len())[j]);
    }
    lemma_boundary_after_ascii(tail, pat.len() as int);
    valid_utf8_split(tail, pat.len() as int);
    assert(tail.subrange(pat.len() as int, tail.len() as int) =~= s.subrange(
        i + pat.len(),
        s.len() as int,
    ));
}

/// Reads `bytes` as a string slice. This is `core::str::from_utf8` with its
/// error dropped: the result is a string slice over the same bytes exactly
/// when they are valid UTF-8, and nothing otherwise.
#[verifier::external_body]
pub(crate) fn utf8_str<'a>(bytes: &'a [u8]) -> (r: Option<&'a str>)
    ensures
        r is Some <==> valid_utf8(bytes@),
        r matches Some(s) ==> s.spec_bytes() == bytes@,
{
    core::str::from_utf8(bytes).ok()
}

/// Splits `s` around the first occurrence of the ASCII pattern `pat`.
pub fn split_str_once<'a>(s: &'a str, pat: &[u8]) -> (r: Option<(&'a str, &'a str)>)
    requires
        pat@.len() > 0,
        all_ascii(pat@),
    ensures
        match split_once(s.spec_bytes(), pat@) {
            Some((before, after)) => r matches Some((x, y)) && x.spec_bytes() == before
                && y.spec_bytes() == after,
            None => r is None,
        },
{
    proof {
        encode_utf8_valid_utf8(s@);
    }
    match find_first(s.as_bytes(), pat) {
        None => None,
        Some(i) => {
            proof {
                lemma_find_is_first(s.spec_bytes(), pat@);
                lemma_split_around_ascii(s.spec_bytes(), pat@, i as int);
            }
            let (before, tail) = s.split_at(i);
            let (_, after) = tail.split_at(pat.len());
            Some((before, after))
        },
    }
}

/// What follows `prefix` in `s`, if `s` begins with the ASCII bytes `prefix`.
pub fn strip_ascii_prefix<'a>(s: &'a str, prefix: &[u8]) -> (r: Option<&'a str>)
    requires
        all_ascii(prefix@),
    ensures
        match r {
            Some(t) => prefix@.is_prefix_of(s.spec_bytes()) && t.spec_bytes()
                == s.spec_bytes().skip(prefix@.len() as int),
            None => !prefix@.is_prefix_of(s.spec_bytes()),
        },
{
    proof {
        encode_utf8_valid_utf8(s@);
    }
    let bytes = s.as_bytes();
    if prefix.len() <= bytes.len() && occurs_here(bytes, prefix, 0) {
        proof {
            assert forall|j: int| 0 <= j < prefix@.len() implies bytes@[j] <= 0x7f by {
                assert(bytes@[j] == bytes@.subrange(0, prefix@.len() as int)[j]);
            }
            lemma_boundary_after_ascii(bytes@, prefix@.len() as int);
        }
        let (_, tail) = s.split_at(prefix.len());
        Some(tail)
    } else {
        None
    }
}

} // verus!
