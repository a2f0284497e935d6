//! The protocol versions that a request line or a status line can name.

use vstd::prelude::*;
use vstd::string::{is_ascii_spec_bytes, StringSliceAdditionalSpecFns};
use crate::request::http_11;

verus! {

/// A version of the protocol.
pub struct Version(Http);

#[derive(PartialEq, Eq, PartialOrd, Ord, Hash, Clone, Copy)]
enum Http {
    Http09,
    Http10,
    Http11,
    H2,
    H3,
}

impl View for Version {
    type V = Seq<char>;

    /// The version as it is written on the wire.
    closed spec fn view(&self) -> Seq<char> {
        match self.0 {
            Http::Http09 => "HTTP/0.9"@,
            Http::Http10 => "HTTP/1.0"@,
            Http::Http11 => "HTTP/1.1"@,
            Http::H2 => "HTTP/2.0"@,
            Http::H3 => "HTTP/3.0"@,
        }
    }
}

impl Version {
    /// `HTTP/0.9`
    pub fn http_09() -> (v: Version)
        ensures
            v@ == "HTTP/0.9"@,
    {
        Version(Http::Http09)
    }

    /// `HTTP/1.0`
    pub fn http_10() -> (v: Version)
        ensures
            v@ == "HTTP/1.0"@,
    {
        Version(Http::Http10)
    }

    /// `HTTP/1.1`
    pub fn http_11() -> (v: Version)
        ensures
            v@ == "HTTP/1.1"@,
    {
        Version(Http::Http11)
    }

    /// `HTTP/2.0`
    pub fn http_2() -> (v: Version)
        ensures
            v@ == "HTTP/2.0"@,
    {
        Version(Http::H2)
    }

    /// `HTTP/3.0`
    pub fn http_3() -> (v: Version)
        ensures
            v@ == "HTTP/3.0"@,
    {
        Version(Http::H3)
    }

    /// The version as it is written on the wire.
    pub fn as_str(&self) -> (s: &'static str)
        ensures
            s@ == self@,
    {
        match self.0 {
            Http::Http09 => "HTTP/0.9",
            Http::Http10 => "HTTP/1.0",
            Http::Http11 => "HTTP/1.1",
            Http::H2 => "HTTP/2.0",
            Http::H3 => "HTTP/3.0",
        }
    }
}

impl Default for Version {
    /// `HTTP/1.1`
    fn default() -> (v: Self)
        ensures
            v@ == "HTTP/1.1"@,
    {
        Version::http_11()
    }
}

/// The default version is the one that the request decoder accepts.
pub proof fn lemma_default_version_is_accepted()
    ensures
        "HTTP/1.1".spec_bytes() == http_11(),
{
    broadcast use is_ascii_spec_bytes;

    reveal_strlit("HTTP/1.1");
    assert(vstd::string::is_ascii("HTTP/1.1"));
    assert("HTTP/1.1".spec_bytes() =~= http_11());
}

} // verus!
