//! Storage for method names outside the standard ones: a short name lives in
//! a fixed array, a long one on the heap.

use vstd::prelude::*;
use vstd::slice::slice_subrange;
use vstd::string::StringSliceAdditionalSpecFns;
use crate::text::{all_ascii, lemma_ascii_is_utf8, utf8_str};
use crate::token::{is_token_byte, method_char};

verus! {

/// The error for a method name that is empty or holds a byte that no token
/// may hold.
#[derive(Debug)]
pub struct InvalidMethod {
    _priv: (),
}

impl InvalidMethod {
    /// The error value; there is only one.
    pub fn new() -> (r: Self) {
        Self { _priv: () }
    }
}

/// Whether every byte of `s` is a token byte.
pub open spec fn all_token_bytes(s: Seq<u8>) -> bool {
    forall|i: int| 0 <= i < s.len() ==> is_token_byte(#[trigger] s[i])
}

/// Whether `k` is the position of the first byte of `s` that is no token byte.
pub open spec fn first_invalid_at(s: Seq<u8>, k: int) -> bool {
    &&& 0 <= k < s.len()
    &&& !is_token_byte(s[k])
    &&& all_token_bytes(s.subrange(0, k))
}

/// Whether `room` bytes hold the token bytes that `s` begins with: all of `s`
/// where it holds token bytes only, and what stands before its first other
/// byte where it does not.
pub open spec fn front_fits(s: Seq<u8>, room: int) -> bool {
    &&& all_token_bytes(s) ==> s.len() <= room
    &&& forall|k: int| first_invalid_at(s, k) ==> k <= room
}

/// Before a byte that is no token byte there is a first one.
proof fn lemma_first_invalid_below(s: Seq<u8>, w: int)
    requires
        0 <= w < s.len(),
        !is_token_byte(s[w]),
    ensures
        exists|k: int| 0 <= k <= w && first_invalid_at(s, k),
    decreases w,
{
    if exists|j: int| 0 <= j < w && !is_token_byte(s[j]) {
        let j = choose|j: int| 0 <= j < w && !is_token_byte(s[j]);
        lemma_first_invalid_below(s, j);
    } else {
        assert forall|i: int| 0 <= i < w implies is_token_byte(
            #[trigger] s.subrange(0, w)[i],
        ) by {
            assert(s.subrange(0, w)[i] == s[i]);
        }
        assert(first_invalid_at(s, w));
    }
}

/// Where the token bytes that `s` begins with fit, every position up to
/// which `s` holds token bytes lies within the room.
pub proof fn lemma_front_fits(s: Seq<u8>, room: int, i: int)
    requires
        front_fits(s, room),
        0 <= i < s.len(),
        all_token_bytes(s.subrange(0, i + 1)),
    ensures
        i < room,
{
    if !all_token_bytes(s) {
        let w = choose|w: int| 0 <= w < s.len() && !is_token_byte(#[trigger] s[w]);
        lemma_first_invalid_below(s, w);
        let k = choose|k: int| 0 <= k <= w && first_invalid_at(s, k);
        if k <= i {
            assert(s.subrange(0, i + 1)[k] == s[k]);
        }
    }
}

/// Copies `src` to the front of `dst` through the lookup table, and stops at
/// the first byte that is no token byte. What lies behind the bytes written
/// stays as it was. `dst` need not be as long as `src`: it is enough that it
/// holds the token bytes that `src` begins with.
pub fn write_checked(src: &[u8], dst: &mut [u8]) -> (res: Result<(), InvalidMethod>)
    requires
        front_fits(src@, old(dst)@.len() as int),
    ensures
        res is Ok <==> all_token_bytes(src@),
        res is Ok ==> final(dst)@ == src@ + old(dst)@.subrange(
            src@.len() as int,
            old(dst)@.len() as int,
        ),
        res is Err ==> exists|k: int|
            first_invalid_at(src@, k) && final(dst)@ == src@.subrange(0, k) + old(dst)@.subrange(
                k,
                old(dst)@.len() as int,
            ),
{
    let n: usize = src.len();
    let mut i: usize = 0;
    while i < n
        invariant
            i <= n,
            n == src@.len(),
            i <= dst@.len(),
            front_fits(src@, dst@.len() as int),
            dst@.len() == old(dst)@.len(),
            all_token_bytes(src@.subrange(0, i as int)),
            dst@ =~= src@.subrange(0, i as int) + old(dst)@.subrange(
                i as int,
                old(dst)@.len() as int,
            ),
        decreases n - i,
    {
        let b: u8 = method_char(src[i]);
        if b == 0 {
            assert(first_invalid_at(src@, i as int));
            return Err(InvalidMethod::new());
        }
        proof {
            assert forall|j: int| 0 <= j < i + 1 implies is_token_byte(
                #[trigger] src@.subrange(0, i + 1)[j],
            ) by {
                if j < i {
                    assert(src@.subrange(0, i as int)[j] == src@[j]);
                }
            }
            lemma_front_fits(src@, dst@.len() as int, i as int);
        }
        dst[i] = b;
        i += 1;
    }
    assert(src@.subrange(0, n as int) =~= src@);
    Ok(())
}

/// Token bytes are ASCII, so a sequence of them is valid UTF-8.
pub proof fn lemma_token_bytes_are_text(s: Seq<u8>)
    requires
        all_token_bytes(s),
    ensures
        all_ascii(s),
        vstd::utf8::valid_utf8(s),
{
    assert forall|i: int| 0 <= i < s.len() implies s[i] <= 0x7f by {
        assert(is_token_byte(s[i]));
    }
    lemma_ascii_is_utf8(s);
}

/// The string slice over `bytes`, which hold token bytes only.
pub fn token_str<'a>(bytes: &'a [u8]) -> (r: &'a str)
    requires
        all_token_bytes(bytes@),
    ensures
        r.spec_bytes() == bytes@,
{
    proof {
        lemma_token_bytes_are_text(bytes@);
    }
    match utf8_str(bytes) {
        Some(s) => s,
        None => vstd::pervasive::unreached(),
    }
}

/// A method name of at most 15 bytes, kept in place.
#[derive(PartialEq, Eq, Hash)]
pub struct InlineExtension([u8; 15], u8);

/// A method name of any length, kept on the heap.
#[derive(PartialEq, Eq, Hash)]
pub struct AllocatedExtension(Vec<u8>);

impl View for InlineExtension {
    type V = Seq<u8>;

    /// The bytes of the name.
    closed spec fn view(&self) -> Seq<u8> {
        self.0@.subrange(0, self.1 as int)
    }
}

impl InlineExtension {
    /// The longest name that is kept in place.
    pub const MAX: usize = 15;

    /// The name fits, holds token bytes only, and zeros fill the rest of the
    /// array.
    #[verifier::type_invariant]
    pub closed spec fn wf(&self) -> bool {
        &&& self.1 <= 15
        &&& all_token_bytes(self.0@.subrange(0, self.1 as int))
        &&& forall|i: int| self.1 <= i < 15 ==> self.0@[i] == 0
    }

    /// Keeps `src`, if it holds token bytes only. A name of token bytes has
    /// to fit; one with another byte is refused whatever its length, as
    /// long as that byte comes before the room is used up.
    pub fn new(src: &[u8]) -> (res: Result<InlineExtension, InvalidMethod>)
        requires
            front_fits(src@, InlineExtension::MAX as int),
        ensures
            res is Ok <==> all_token_bytes(src@),
            res matches Ok(e) ==> e@ == src@ && e.wf(),
    {
        let mut data: [u8; 15] = [0; 15];
        match write_checked(src, &mut data) {
            Ok(()) => {
                assert(data@.subrange(0, src@.len() as int) =~= src@);
                Ok(InlineExtension(data, src.len() as u8))
            },
            Err(e) => Err(e),
        }
    }

    /// The name as a string slice.
    pub fn as_str(&self) -> (r: &str)
        ensures
            r.spec_bytes() == self@,
    {
        proof {
            use_type_invariant(self);
        }
        token_str(slice_subrange(self.0.as_slice(), 0, self.1 as usize))
    }
}

impl Clone for InlineExtension {
    /// A copy that holds the same name.
    fn clone(&self) -> (r: Self)
        ensures
            r@ == self@,
            r == *self,
    {
        proof {
            use_type_invariant(self);
        }
        InlineExtension(self.0, self.1)
    }
}

impl View for AllocatedExtension {
    type V = Seq<u8>;

    /// The bytes of the name.
    closed spec fn view(&self) -> Seq<u8> {
        self.0@
    }
}

impl AllocatedExtension {
    /// The name holds token bytes only.
    #[verifier::type_invariant]
    pub closed spec fn wf(&self) -> bool {
        all_token_bytes(self.0@)
    }

    /// Keeps `src`, if it holds token bytes only.
    pub fn new(src: &[u8]) -> (res: Result<AllocatedExtension, InvalidMethod>)
        ensures
            res is Ok <==> all_token_bytes(src@),
            res matches Ok(e) ==> e@ == src@ && e.wf(),
    {
        let mut data: Vec<u8> = vec![0; src.len()];
        match write_checked(src, data.as_mut_slice()) {
            Ok(()) => {
                assert(data@ =~= src@);
                Ok(AllocatedExtension(data))
            },
            Err(e) => Err(e),
        }
    }

    /// The name as a string slice.
    pub fn as_str(&self) -> (r: &str)
        ensures
            r.spec_bytes() == self@,
    {
        proof {
            use_type_invariant(self);
        }
        token_str(self.0.as_slice())
    }
}

impl Clone for AllocatedExtension {
    /// A copy that holds the same name.
    fn clone(&self) -> (r: Self)
        ensures
            r@ == self@,
            r.wf(),
    {
        proof {
            use_type_invariant(self);
        }
        let data: Vec<u8> = self.0.clone();
        assert(data@ =~= self.0@);
        AllocatedExtension(data)
    }
}

} // verus!
