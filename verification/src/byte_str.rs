//! A string kept in a shared byte buffer.

use vstd::prelude::*;
use vstd::string::StringSliceAdditionalSpecFns;
use vstd::utf8::{encode_utf8, encode_utf8_valid_utf8, valid_utf8};
use bytes::Bytes;
use crate::request::ParseError;
use crate::text::utf8_str;

verus! {

/// The shared byte buffer of the `bytes` crate. Verus sees nothing inside it.
#[verifier::external_type_specification]
#[verifier::external_body]
pub struct ExBytes(bytes::Bytes);

/// The bytes that a buffer holds, from its first to its last.
pub uninterp spec fn contents(b: Bytes) -> Seq<u8>;

/// `Bytes::new` gives a buffer that holds nothing.
pub assume_specification[ Bytes::new ]() -> (b: Bytes)
    ensures
        contents(b) == Seq::<u8>::empty(),
;

/// `Bytes::from_static` gives a buffer that holds the bytes of the slice.
pub assume_specification[ Bytes::from_static ](bytes: &'static [u8]) -> (b: Bytes)
    ensures
        contents(b) == bytes@,
;

/// `Bytes::copy_from_slice` gives a buffer that holds a copy of the slice.
pub assume_specification[ Bytes::copy_from_slice ](data: &[u8]) -> (b: Bytes)
    ensures
        contents(b) == data@,
;

/// `Bytes::len` is the number of bytes that the buffer holds.
pub assume_specification[ Bytes::len ](b: &Bytes) -> (n: usize)
    ensures
        n == contents(*b).len(),
;

/// The buffer that `Bytes::from` makes of a `String` holds the string's
/// bytes.
#[verifier::external_body]
fn bytes_from_string(value: String) -> (b: Bytes)
    ensures
        contents(b) == encode_utf8(value@),
{
    Bytes::from(value)
}

/// The slice that `Bytes::as_ref` gives of a buffer holds the buffer's
/// bytes.
#[verifier::external_body]
fn bytes_as_slice(b: &Bytes) -> (s: &[u8])
    ensures
        s@ == contents(*b),
{
    b.as_ref()
}

/// The second handle that `Bytes::clone` gives holds the same bytes as the
/// buffer it was made from.
#[verifier::external_body]
fn bytes_clone(b: &Bytes) -> (c: Bytes)
    ensures
        contents(c) == contents(*b),
{
    b.clone()
}

/// A string kept in a shared byte buffer: the buffer always holds valid
/// UTF-8.
#[derive(Debug, PartialEq, Eq, PartialOrd, Ord, Hash)]
pub struct ByteStr {
    bytes: Bytes,
}

impl View for ByteStr {
    type V = Seq<u8>;

    /// The bytes of the string.
    closed spec fn view(&self) -> Seq<u8> {
        contents(self.bytes)
    }
}

impl ByteStr {
    /// The buffer holds valid UTF-8.
    #[verifier::type_invariant]
    pub closed spec fn wf(&self) -> bool {
        valid_utf8(contents(self.bytes))
    }

    /// The empty string.
    pub fn new() -> (r: Self)
        ensures
            r@ == Seq::<u8>::empty(),
            r.wf(),
    {
        let bytes = Bytes::new();
        assert(valid_utf8(Seq::<u8>::empty()));
        Self { bytes }
    }

    /// The string `val`, shared and not copied.
    pub fn from_static(val: &'static str) -> (r: ByteStr)
        ensures
            r@ == val.spec_bytes(),
            r.wf(),
    {
        proof {
            encode_utf8_valid_utf8(val@);
        }
        ByteStr { bytes: Bytes::from_static(val.as_bytes()) }
    }

    /// The string that `bytes` holds, for a caller who knows that it holds
    /// valid UTF-8.
    pub fn from_utf8_unchecked(bytes: Bytes) -> (r: ByteStr)
        requires
            valid_utf8(contents(bytes)),
        ensures
            r@ == contents(bytes),
            r.wf(),
    {
        ByteStr { bytes }
    }

    /// The string that `bytes` holds, if it holds valid UTF-8.
    pub fn from_utf8(bytes: Bytes) -> (res: Result<ByteStr, ParseError>)
        ensures
            match res {
                Ok(r) => valid_utf8(contents(bytes)) && r@ == contents(bytes) && r.wf(),
                Err(e) => !valid_utf8(contents(bytes)) && e == ParseError::InvalidEncoding,
            },
    {
        let valid: bool = utf8_str(bytes_as_slice(&bytes)).is_some();
        if valid {
            Ok(ByteStr::from_utf8_unchecked(bytes))
        } else {
            Err(ParseError::InvalidEncoding)
        }
    }

    /// The string `value`, whose storage the buffer takes over.
    pub fn from_string(value: String) -> (r: ByteStr)
        ensures
            r@ == encode_utf8(value@),
            r.wf(),
    {
        proof {
            encode_utf8_valid_utf8(value@);
        }
        ByteStr { bytes: bytes_from_string(value) }
    }

    /// A copy of the string `value`.
    pub fn copy_from_str(value: &str) -> (r: ByteStr)
        ensures
            r@ == value.spec_bytes(),
            r.wf(),
    {
        proof {
            encode_utf8_valid_utf8(value@);
        }
        ByteStr { bytes: Bytes::copy_from_slice(value.as_bytes()) }
    }

    /// The length of the string in bytes.
    pub fn len(&self) -> (n: usize)
        ensures
            n == self@.len(),
    {
        self.bytes.len()
    }

    /// The string as a string slice.
    pub fn as_str(&self) -> (r: &str)
        ensures
            r.spec_bytes() == self@,
    {
        proof {
            use_type_invariant(self);
        }
        match utf8_str(bytes_as_slice(&self.bytes)) {
            Some(s) => s,
            None => vstd::pervasive::unreached(),
        }
    }

    /// The buffer that holds the string.
    pub fn into_bytes(self) -> (b: Bytes)
        ensures
            contents(b) == self@,
            valid_utf8(contents(b)),
    {
        proof {
            use_type_invariant(&self);
        }
        self.bytes
    }
}

impl Clone for ByteStr {
    /// A second handle on the same string.
    fn clone(&self) -> (r: Self)
        ensures
            r@ == self@,
            r.wf(),
    {
        proof {
            use_type_invariant(self);
        }
        ByteStr { bytes: bytes_clone(&self.bytes) }
    }
}

} // verus!
