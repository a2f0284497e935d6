//! The bytes of a response: a status line, the two headers that describe the
//! body, a blank line, and the body.

use vstd::prelude::*;
use vstd::string::StringSliceAdditionalSpecFns;
use crate::decimal::{decimal_digits, write_decimal};

verus! {

/// The statuses that the server answers with.
#[derive(Clone, Copy, Debug, PartialEq, Eq, Structural)]
pub enum Status {
    /// 200
    Success,
    /// 201
    Created,
    /// 404
    NotFound,
}

impl Status {
    /// The status line with its terminator. The reason sent with 201 is `OK`.
    pub open spec fn line(self) -> Seq<u8> {
        match self {
            Status::Success => "HTTP/1.1 200 OK\r\n".spec_bytes(),
            Status::Created => "HTTP/1.1 201 OK\r\n".spec_bytes(),
            Status::NotFound => "HTTP/1.1 404 Not Found\r\n".spec_bytes(),
        }
    }

    /// The number of the status.
    pub fn code(self) -> (c: u16)
        ensures
            c == match self {
                Status::Success => 200u16,
                Status::Created => 201u16,
                Status::NotFound => 404u16,
            },
    {
        match self {
            Status::Success => 200,
            Status::Created => 201,
            Status::NotFound => 404,
        }
    }

    /// The status line with its terminator.
    pub fn status_line(self) -> (s: &'static str)
        ensures
            s.spec_bytes() == self.line(),
    {
        match self {
            Status::Success => "HTTP/1.1 200 OK\r\n",
            Status::Created => "HTTP/1.1 201 OK\r\n",
            Status::NotFound => "HTTP/1.1 404 Not Found\r\n",
        }
    }
}

/// A response without headers and without a body: the status line and a
/// blank line.
pub open spec fn bare_bytes(status: Status) -> Seq<u8> {
    status.line() + "\r\n".spec_bytes()
}

/// The head of a response that announces a body of `len` bytes of the type
/// `content_type`.
pub open spec fn head_bytes(status: Status, content_type: Seq<u8>, len: nat) -> Seq<u8> {
    status.line() + "Content-Type: ".spec_bytes() + content_type + "\r\n".spec_bytes()
        + "Content-Length: ".spec_bytes() + decimal_digits(len) + "\r\n\r\n".spec_bytes()
}

/// A whole response: the head, then the body.
pub open spec fn response_bytes(status: Status, content_type: Seq<u8>, body: Seq<u8>) -> Seq<u8> {
    head_bytes(status, content_type, body.len()) + body
}

/// The bytes of a response without headers and without a body.
pub fn bare_response(status: Status) -> (out: Vec<u8>)
    ensures
        out@ == bare_bytes(status),
{
    let mut out: Vec<u8> = Vec::new();
    out.extend_from_slice(status.status_line().as_bytes());
    out.extend_from_slice("\r\n".as_bytes());
    assert(out@ =~= bare_bytes(status));
    out
}

/// The bytes of a response that carries `body`.
pub fn response(status: Status, content_type: &str, body: &[u8]) -> (out: Vec<u8>)
    ensures
        out@ == response_bytes(status, content_type.spec_bytes(), body@),
{
    let mut out: Vec<u8> = Vec::new();
    out.extend_from_slice(status.status_line().as_bytes());
    out.extend_from_slice("Content-Type: ".as_bytes());
    out.extend_from_slice(content_type.as_bytes());
    out.extend_from_slice("\r\n".as_bytes());
    out.extend_from_slice("Content-Length: ".as_bytes());
    write_decimal(body.len(), &mut out);
    out.extend_from_slice("\r\n\r\n".as_bytes());
    assert(out@ =~= head_bytes(status, content_type.spec_bytes(), body@.len()));
    out.extend_from_slice(body);
    assert(out@ =~= response_bytes(status, content_type.spec_bytes(), body@));
    out
}

/// The response 200 that carries `body`.
pub fn ok(body: &[u8], content_type: &str) -> (out: Vec<u8>)
    ensures
        out@ == response_bytes(Status::Success, content_type.spec_bytes(), body@),
{
    response(Status::Success, content_type, body)
}

/// The response 201 that carries `body`.
pub fn ok201(body: &[u8], content_type: &str) -> (out: Vec<u8>)
    ensures
        out@ == response_bytes(Status::Created, content_type.spec_bytes(), body@),
{
    response(Status::Created, content_type, body)
}

/// The response 404, without a body.
pub fn not_found() -> (out: Vec<u8>)
    ensures
        out@ == bare_bytes(Status::NotFound),
{
    bare_response(Status::NotFound)
}

} // verus!
