//! Which answer a request gets: what it asks for is decided from its method
//! and its path alone, and the answer from that and from what was found.

use vstd::prelude::*;
use vstd::string::{is_ascii_spec_bytes, StringSliceAdditionalSpecFns};
use crate::response::{
    bare_bytes, bare_response, not_found, ok, ok201, response_bytes, Status,
};
use crate::str_map::bytes_eq;
use crate::text::{all_ascii, strip_ascii_prefix};

verus! {

/// The methods that the server knows.
#[derive(Clone, Copy, Debug, PartialEq, Eq, Structural)]
pub enum HttpMethod {
    Get,
    Post,
    Put,
    Delete,
    Trace,
}

/// The error for a method that the server does not know.
#[derive(Clone, Copy, Debug, PartialEq, Eq, Structural)]
pub struct MethodNotSupported;

impl MethodNotSupported {
    /// What the error says.
    pub fn message(&self) -> (s: &'static str)
        ensures
            s@ == "Method not supported!"@,
    {
        "Method not supported!"
    }
}

/// The method that `name` names, if the server knows it.
pub open spec fn method_named(name: Seq<u8>) -> Option<HttpMethod> {
    if name == "GET".spec_bytes() {
        Some(HttpMethod::Get)
    } else if name == "POST".spec_bytes() {
        Some(HttpMethod::Post)
    } else if name == "PUT".spec_bytes() {
        Some(HttpMethod::Put)
    } else if name == "TRACE".spec_bytes() {
        Some(HttpMethod::Trace)
    } else if name == "DELETE".spec_bytes() {
        Some(HttpMethod::Delete)
    } else {
        None
    }
}

impl HttpMethod {
    /// Reads a method from its name.
    pub fn try_from(value: &str) -> (r: Result<HttpMethod, MethodNotSupported>)
        ensures
            match method_named(value.spec_bytes()) {
                Some(m) => r == Ok::<HttpMethod, MethodNotSupported>(m),
                None => r is Err,
            },
    {
        let name = value.as_bytes();
        if bytes_eq(name, "GET".as_bytes()) {
            Ok(HttpMethod::Get)
        } else if bytes_eq(name, "POST".as_bytes()) {
            Ok(HttpMethod::Post)
        } else if bytes_eq(name, "PUT".as_bytes()) {
            Ok(HttpMethod::Put)
        } else if bytes_eq(name, "TRACE".as_bytes()) {
            Ok(HttpMethod::Trace)
        } else if bytes_eq(name, "DELETE".as_bytes()) {
            Ok(HttpMethod::Delete)
        } else {
            Err(MethodNotSupported)
        }
    }
}

/// What a request asks for, with the part of the path that names it.
pub enum Target {
    /// `GET /`: an empty answer.
    Root,
    /// `GET /user-agent`: the value of the `User-Agent` header.
    UserAgent,
    /// `GET /echo/<text>`: the text.
    Echo(Seq<u8>),
    /// `GET /files/<name>`: what the file of that name holds.
    ReadFile(Seq<u8>),
    /// `POST /files/<name>`: the body is to be written to the file of that name.
    WriteFile(Seq<u8>),
    /// Any other path under `GET` or `POST`.
    NotFound,
    /// Any other method: nothing is answered.
    NoResponse,
}

/// What a request asks for, with the part of the path that names it.
#[derive(Clone, Copy, Debug, PartialEq, Eq)]
pub enum Route<'a> {
    /// `GET /`: an empty answer.
    Root,
    /// `GET /user-agent`: the value of the `User-Agent` header.
    UserAgent,
    /// `GET /echo/<text>`: the text.
    Echo(&'a str),
    /// `GET /files/<name>`: what the file of that name holds.
    ReadFile(&'a str),
    /// `POST /files/<name>`: the body is to be written to the file of that name.
    WriteFile(&'a str),
    /// Any other path under `GET` or `POST`.
    NotFound,
    /// Any other method: nothing is answered.
    NoResponse,
}

impl<'a> View for Route<'a> {
    type V = Target;

    open spec fn view(&self) -> Target {
        match *self {
            Route::Root => Target::Root,
            Route::UserAgent => Target::UserAgent,
            Route::Echo(text) => Target::Echo(text.spec_bytes()),
            Route::ReadFile(name) => Target::ReadFile(name.spec_bytes()),
            Route::WriteFile(name) => Target::WriteFile(name.spec_bytes()),
            Route::NotFound => Target::NotFound,
            Route::NoResponse => Target::NoResponse,
        }
    }
}

/// What a request with the method `method` and the path `path` asks for.
pub open spec fn target_of(method: HttpMethod, path: Seq<u8>) -> Target {
    let echo = "/echo/".spec_bytes();
    let files = "/files/".spec_bytes();
    match method {
        HttpMethod::Get => if path == "/".spec_bytes() {
            Target::Root
        } else if path == "/user-agent".spec_bytes() {
            Target::UserAgent
        } else if echo.is_prefix_of(path) {
            Target::Echo(path.skip(echo.len() as int))
        } else if files.is_prefix_of(path) {
            Target::ReadFile(path.skip(files.len() as int))
        } else {
            Target::NotFound
        },
        HttpMethod::Post => if files.is_prefix_of(path) {
            Target::WriteFile(path.skip(files.len() as int))
        } else {
            Target::NotFound
        },
        _ => Target::NoResponse,
    }
}

/// The two prefixes that the paths are matched against are ASCII.
proof fn lemma_prefixes_are_ascii()
    ensures
        all_ascii("/echo/".spec_bytes()),
        all_ascii("/files/".spec_bytes()),
{
    broadcast use is_ascii_spec_bytes;

    reveal_strlit("/echo/");
    reveal_strlit("/files/");
    assert(vstd::string::is_ascii("/echo/"));
    assert(vstd::string::is_ascii("/files/"));
}

/// Decides what a request asks for.
pub fn route<'a>(method: HttpMethod, path: &'a str) -> (r: Route<'a>)
    ensures
        r@ == target_of(method, path.spec_bytes()),
{
    proof {
        lemma_prefixes_are_ascii();
    }
    match method {
        HttpMethod::Get => {
            if bytes_eq(path.as_bytes(), "/".as_bytes()) {
                Route::Root
            } else if bytes_eq(path.as_bytes(), "/user-agent".as_bytes()) {
                Route::UserAgent
            } else {
                match strip_ascii_prefix(path, "/echo/".as_bytes()) {
                    Some(text) => Route::Echo(text),
                    None => match strip_ascii_prefix(path, "/files/".as_bytes()) {
                        Some(name) => Route::ReadFile(name),
                        None => Route::NotFound,
                    },
                }
            }
        },
        HttpMethod::Post => match strip_ascii_prefix(path, "/files/".as_bytes()) {
            Some(name) => Route::WriteFile(name),
            None => Route::NotFound,
        },
        _ => Route::NoResponse,
    }
}

/// The answer to a request that asks for `target`: the bytes to send, or
/// nothing where nothing is sent. `user_agent` is the value of the request's
/// `User-Agent` header, if it has one, and `file` what the file named in the
/// path holds, if it could be read.
///
/// - `GET /` gets 200 without headers.
/// - `GET /user-agent` gets the header's value as plain text, and nothing
///   where the request has no such header.
/// - `GET /echo/<text>` gets the text back as plain text.
/// - `GET /files/<name>` gets what the file holds, and 404 where it could
///   not be read.
/// - `POST /files/<name>` gets 201 with the body `write ok`, once.
/// - Any other path gets 404; any other method gets nothing.
pub open spec fn answer_bytes(
    target: Target,
    user_agent: Option<Seq<u8>>,
    file: Option<Seq<u8>>,
) -> Option<Seq<u8>> {
    let plain = "text/plain".spec_bytes();
    match target {
        Target::Root => Some(bare_bytes(Status::Success)),
        Target::UserAgent => match user_agent {
            Some(value) => Some(response_bytes(Status::Success, plain, value)),
            None => None,
        },
        Target::Echo(text) => Some(response_bytes(Status::Success, plain, text)),
        Target::ReadFile(_) => match file {
            Some(held) => Some(
                response_bytes(Status::Success, "application/octet-stream".spec_bytes(), held),
            ),
            None => Some(bare_bytes(Status::NotFound)),
        },
        Target::WriteFile(_) => Some(
            response_bytes(Status::Created, plain, "write ok".spec_bytes()),
        ),
        Target::NotFound => Some(bare_bytes(Status::NotFound)),
        Target::NoResponse => None,
    }
}

/// The bytes of `value` where there is one.
pub open spec fn str_bytes(value: Option<&str>) -> Option<Seq<u8>> {
    match value {
        Some(s) => Some(s.spec_bytes()),
        None => None,
    }
}

/// What `value` holds where there is one.
pub open spec fn slice_bytes(value: Option<&[u8]>) -> Option<Seq<u8>> {
    match value {
        Some(s) => Some(s@),
        None => None,
    }
}

/// What `value` holds where there is one.
pub open spec fn vec_bytes(value: Option<Vec<u8>>) -> Option<Seq<u8>> {
    match value {
        Some(v) => Some(v@),
        None => None,
    }
}

/// Builds the answer to a request from what it asks for, the value of its
/// `User-Agent` header and what the file named in its path holds.
pub fn answer<'a>(route: Route<'a>, user_agent: Option<&str>, file: Option<&[u8]>) -> (out: Option<
    Vec<u8>,
>)
    ensures
        vec_bytes(out) == answer_bytes(route@, str_bytes(user_agent), slice_bytes(file)),
{
    match route {
        Route::Root => Some(bare_response(Status::Success)),
        Route::UserAgent => match user_agent {
            Some(value) => Some(ok(value.as_bytes(), "text/plain")),
            None => None,
        },
        Route::Echo(text) => Some(ok(text.as_bytes(), "text/plain")),
        Route::ReadFile(_) => match file {
            Some(held) => Some(ok(held, "application/octet-stream")),
            None => Some(not_found()),
        },
        Route::WriteFile(_) => Some(ok201("write ok".as_bytes(), "text/plain")),
        Route::NotFound => Some(not_found()),
        Route::NoResponse => None,
    }
}

} // verus!
