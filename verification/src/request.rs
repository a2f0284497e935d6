//! The request decoder: a request line, a header block and a body whose
//! length the `Content-Length` header declares, read from a buffer that may
//! still be incomplete.

use vstd::prelude::*;
use vstd::utf8::valid_utf8;
use vstd::slice::slice_subrange;
use vstd::string::StringSliceAdditionalSpecFns;
use crate::decimal::{parse_decimal, parse_usize};
use crate::extension::InvalidMethod;
use crate::method::{form_of, is_token, Method};
use crate::scan::{
    colon_space, crlf, find, find_first, lemma_find_is_first, lemma_split_extends, space,
    split_once, trim, trim_ascii,
};
use crate::str_map::{bytes_eq, StrMap};
use crate::text::{split_str_once, utf8_str};

verus! {

/// Why a buffer is not a request.
#[derive(Clone, Copy, Debug, PartialEq, Eq, Structural)]
pub enum ParseError {
    /// A line is not valid UTF-8.
    InvalidEncoding,
    /// The request line lacks one of its three parts.
    MalformedRequestLine,
    /// The version of the request line is not `HTTP/1.1`.
    UnsupportedVersion,
    /// A header line lacks the colon and space after its name.
    MalformedHeader,
    /// The value of `Content-Length` is not a number that fits a `usize`.
    InvalidContentLength,
}

/// What a buffer holds: too little to tell, something that is no request, or
/// a value.
pub enum Decoded<T> {
    /// More bytes are needed.
    Incomplete,
    /// The bytes are complete so far and are not a request.
    Invalid(ParseError),
    /// The bytes hold this value.
    Complete(T),
}

/// The head of a request as plain byte sequences, and what follows it.
pub struct Head {
    /// The first part of the request line.
    pub method: Seq<u8>,
    /// The second part of the request line.
    pub path: Seq<u8>,
    /// Each header's value under its name; of two headers with one name the
    /// later one counts.
    pub headers: Map<Seq<u8>, Seq<u8>>,
    /// The length that `Content-Length` declares, 0 without that header.
    pub body_len: usize,
    /// The input after the blank line that ends the header block.
    pub rest: Seq<u8>,
}

/// A whole request as plain byte sequences, and what follows it.
pub struct Message {
    /// The request's head; its `rest` begins with the body.
    pub head: Head,
    /// The body, where a length above 0 is declared.
    pub body: Option<Seq<u8>>,
    /// The input after the body.
    pub rest: Seq<u8>,
}

/// The bytes of `HTTP/1.1`, the one version that is accepted.
pub open spec fn http_11() -> Seq<u8> {
    seq![0x48u8, 0x54u8, 0x54u8, 0x50u8, 0x2fu8, 0x31u8, 0x2eu8, 0x31u8]
}

/// The bytes of `Content-Length`.
pub open spec fn content_length_name() -> Seq<u8> {
    seq![
        0x43u8, 0x6fu8, 0x6eu8, 0x74u8, 0x65u8, 0x6eu8, 0x74u8, 0x2du8, 0x4cu8, 0x65u8, 0x6eu8,
        0x67u8, 0x74u8, 0x68u8,
    ]
}

/// The method and the path of a request line: what stands before the first
/// space, and what stands between it and the next one. What follows that
/// second space has to be the version, with or without white space around
/// it.
pub open spec fn request_line(line: Seq<u8>) -> Result<(Seq<u8>, Seq<u8>), ParseError> {
    match split_once(line, space()) {
        None => Err(ParseError::MalformedRequestLine),
        Some((method, tail)) => match split_once(tail, space()) {
            None => Err(ParseError::MalformedRequestLine),
            Some((path, version)) => if trim(version) == http_11() {
                Ok((method, path))
            } else {
                Err(ParseError::UnsupportedVersion)
            },
        },
    }
}

/// The headers of the lines of `s` up to the first empty line, written over
/// `acc` in their order, and what follows that empty line.
pub open spec fn header_block(s: Seq<u8>, acc: Map<Seq<u8>, Seq<u8>>) -> Decoded<
    (Map<Seq<u8>, Seq<u8>>, Seq<u8>),
>
    decreases s.len(),
{
    match split_once(s, crlf()) {
        None => Decoded::Incomplete,
        Some((line, rest)) => if !valid_utf8(line) {
            Decoded::Invalid(ParseError::InvalidEncoding)
        } else if line.len() == 0 {
            Decoded::Complete((acc, rest))
        } else {
            match split_once(line, colon_space()) {
                None => Decoded::Invalid(ParseError::MalformedHeader),
                Some((name, value)) => {
                    proof {
                        lemma_find_is_first(s, crlf());
                    }
                    header_block(rest, acc.insert(name, value))
                },
            }
        },
    }
}

/// The length that the headers declare for the body.
pub open spec fn declared_length(headers: Map<Seq<u8>, Seq<u8>>) -> Option<usize> {
    if headers.contains_key(content_length_name()) {
        parse_usize(headers[content_length_name()])
    } else {
        Some(0usize)
    }
}

/// The head that a method, a path and a decoded header block make.
pub open spec fn head_of(
    method: Seq<u8>,
    path: Seq<u8>,
    block: Decoded<(Map<Seq<u8>, Seq<u8>>, Seq<u8>)>,
) -> Decoded<Head> {
    match block {
        Decoded::Incomplete => Decoded::Incomplete,
        Decoded::Invalid(e) => Decoded::Invalid(e),
        Decoded::Complete((headers, rest)) => match declared_length(headers) {
            None => Decoded::Invalid(ParseError::InvalidContentLength),
            Some(body_len) => Decoded::Complete(Head { method, path, headers, body_len, rest }),
        },
    }
}

/// The head of the request that `s` begins with.
pub open spec fn decode_head(s: Seq<u8>) -> Decoded<Head> {
    match split_once(s, crlf()) {
        None => Decoded::Incomplete,
        Some((line, rest)) => if !valid_utf8(line) {
            Decoded::Invalid(ParseError::InvalidEncoding)
        } else {
            match request_line(line) {
                Err(e) => Decoded::Invalid(e),
                Ok((method, path)) => head_of(method, path, header_block(rest, Map::empty())),
            }
        },
    }
}

/// The request that `s` begins with, body included.
pub open spec fn decode_message(s: Seq<u8>) -> Decoded<Message> {
    match decode_head(s) {
        Decoded::Incomplete => Decoded::Incomplete,
        Decoded::Invalid(e) => Decoded::Invalid(e),
        Decoded::Complete(head) => if head.body_len == 0 {
            Decoded::Complete(Message { head, body: None, rest: head.rest })
        } else if head.rest.len() < head.body_len {
            Decoded::Incomplete
        } else {
            Decoded::Complete(
                Message {
                    head,
                    body: Some(head.rest.subrange(0, head.body_len as int)),
                    rest: head.rest.subrange(head.body_len as int, head.rest.len() as int),
                },
            )
        },
    }
}

/// Splits `s` into its first line and what follows the line's terminator.
pub fn next_line<'a>(s: &'a [u8]) -> (r: Option<(&'a [u8], &'a [u8])>)
    ensures
        match split_once(s@, crlf()) {
            Some((line, rest)) => r matches Some((x, y)) && x@ == line && y@ == rest,
            None => r is None,
        },
{
    let terminator: [u8; 2] = [0x0d, 0x0a];
    assert(terminator@ =~= crlf());
    match find_first(s, terminator.as_slice()) {
        None => None,
        Some(i) => {
            proof {
                lemma_find_is_first(s@, crlf());
            }
            let n: usize = s.len();
            Some((slice_subrange(s, 0, i), slice_subrange(s, i + 2, n)))
        },
    }
}

/// Reads a request line: its method and its path.
pub fn parse_request_line<'a>(line: &'a str) -> (r: Result<(&'a str, &'a str), ParseError>)
    ensures
        match request_line(line.spec_bytes()) {
            Ok((method, path)) => r matches Ok((m, p)) && m.spec_bytes() == method
                && p.spec_bytes() == path,
            Err(e) => r == Err::<(&str, &str), ParseError>(e),
        },
{
    let separator: [u8; 1] = [0x20];
    assert(separator@ =~= space());
    let (method, tail) = match split_str_once(line, separator.as_slice()) {
        Some(parts) => parts,
        None => {
            return Err(ParseError::MalformedRequestLine);
        },
    };
    let (path, version) = match split_str_once(tail, separator.as_slice()) {
        Some(parts) => parts,
        None => {
            return Err(ParseError::MalformedRequestLine);
        },
    };
    let accepted: [u8; 8] = [0x48, 0x54, 0x54, 0x50, 0x2f, 0x31, 0x2e, 0x31];
    assert(accepted@ =~= http_11());
    if bytes_eq(trim_ascii(version.as_bytes()), accepted.as_slice()) {
        Ok((method, path))
    } else {
        Err(ParseError::UnsupportedVersion)
    }
}

/// Reads header lines up to the empty line that ends them.
pub fn parse_headers<'a>(s: &'a [u8]) -> (r: Result<Option<(StrMap<'a>, &'a [u8])>, ParseError>)
    ensures
        match header_block(s@, Map::empty()) {
            Decoded::Incomplete => r matches Ok(None),
            Decoded::Invalid(e) => r matches Err(err) && err == e,
            Decoded::Complete((headers, rest)) => r matches Ok(Some((h, t))) && h@ == headers
                && t@ == rest,
        },
{
    let separator: [u8; 2] = [0x3a, 0x20];
    assert(separator@ =~= colon_space());
    let mut headers = StrMap::new();
    let mut remaining: &'a [u8] = s;
    loop
        invariant
            separator@ == colon_space(),
            header_block(s@, Map::empty()) == header_block(remaining@, headers@),
        decreases remaining@.len(),
    {
        let (line, rest) = match next_line(remaining) {
            Some(parts) => parts,
            None => {
                return Ok(None);
            },
        };
        proof {
            lemma_find_is_first(remaining@, crlf());
        }
        let text = match utf8_str(line) {
            Some(text) => text,
            None => {
                return Err(ParseError::InvalidEncoding);
            },
        };
        if line.len() == 0 {
            return Ok(Some((headers, rest)));
        }
        let (name, value) = match split_str_once(text, separator.as_slice()) {
            Some(parts) => parts,
            None => {
                return Err(ParseError::MalformedHeader);
            },
        };
        headers.insert(name, value);
        remaining = rest;
    }
}

/// A request whose fields are views into the buffer it was read from.
pub struct HttpRequest<'a> {
    /// The method, as it stands in the request line.
    pub method: &'a str,
    /// The path, as it stands in the request line.
    pub path: &'a str,
    /// The parameters of the query; the decoder leaves them empty.
    pub query: StrMap<'a>,
    /// The headers, each value under its name.
    pub headers: StrMap<'a>,
    /// The body, where the headers declare one.
    pub body: Option<&'a [u8]>,
    /// The length that the headers declare for the body.
    pub body_len: usize,
}

impl<'a> HttpRequest<'a> {
    /// Whether the request has the method, path, headers and declared length
    /// of `head`, and no query. Of the body this says nothing.
    pub open spec fn matches_head(&self, head: Head) -> bool {
        &&& self.method.spec_bytes() == head.method
        &&& self.path.spec_bytes() == head.path
        &&& self.query@ == Map::<Seq<u8>, Seq<u8>>::empty()
        &&& self.headers@ == head.headers
        &&& self.body_len == head.body_len
    }

    /// The body as a byte sequence, if there is one.
    pub open spec fn body_bytes(&self) -> Option<Seq<u8>> {
        match self.body {
            Some(b) => Some(b@),
            None => None,
        }
    }

    /// Whether the request has the head of `message` and its body.
    pub open spec fn matches_message(&self, message: Message) -> bool {
        &&& self.matches_head(message.head)
        &&& self.body_bytes() == message.body
    }

    /// Reads the head of a request only: the request line and the headers.
    /// The body is not read: it begins the remainder that is returned, and
    /// the request has none. From a buffer that does not yet hold a whole
    /// head, the buffer itself comes back and no request.
    pub fn parse_head(request: &'a [u8]) -> (res: Result<
        (&'a [u8], Option<HttpRequest<'a>>),
        ParseError,
    >)
        ensures
            match decode_head(request@) {
                Decoded::Incomplete => res matches Ok((rest, None)) && rest@ == request@,
                Decoded::Invalid(e) => res matches Err(err) && err == e,
                Decoded::Complete(head) => res matches Ok((rest, Some(req))) && rest@ == head.rest
                    && req.matches_head(head) && req.body is None,
            },
    {
        let (line, rest) = match next_line(request) {
            Some(parts) => parts,
            None => {
                return Ok((request, None));
            },
        };
        let line = match utf8_str(line) {
            Some(text) => text,
            None => {
                return Err(ParseError::InvalidEncoding);
            },
        };
        let (method, path) = match parse_request_line(line) {
            Ok(parts) => parts,
            Err(e) => {
                return Err(e);
            },
        };
        let (headers, remaining) = match parse_headers(rest) {
            Ok(Some(parts)) => parts,
            Ok(None) => {
                return Ok((request, None));
            },
            Err(e) => {
                return Err(e);
            },
        };
        let name: [u8; 14] = [
            0x43, 0x6f, 0x6e, 0x74, 0x65, 0x6e, 0x74, 0x2d, 0x4c, 0x65, 0x6e, 0x67, 0x74, 0x68,
        ];
        assert(name@ =~= content_length_name());
        let body_len: usize = match headers.get_bytes(name.as_slice()) {
            None => 0,
            Some(value) => match parse_decimal(value.as_bytes()) {
                Some(n) => n,
                None => {
                    return Err(ParseError::InvalidContentLength);
                },
            },
        };
        Ok(
            (
                remaining,
                Some(
                    HttpRequest {
                        method,
                        path,
                        query: StrMap::new(),
                        headers,
                        body: None,
                        body_len,
                    },
                ),
            ),
        )
    }

    /// Reads a request: the request line, the headers, and then as many
    /// bytes of body as `Content-Length` declares. The remainder that is
    /// returned is what follows the body. From a buffer that does not yet
    /// hold all of the request, the buffer itself comes back and no request.
    pub fn parse_request(request: &'a [u8]) -> (res: Result<
        (&'a [u8], Option<HttpRequest<'a>>),
        ParseError,
    >)
        ensures
            match decode_message(request@) {
                Decoded::Incomplete => res matches Ok((rest, None)) && rest@ == request@,
                Decoded::Invalid(e) => res matches Err(err) && err == e,
                Decoded::Complete(message) => res matches Ok((rest, Some(req))) && rest@
                    == message.rest && req.matches_message(message),
            },
    {
        let (rest, parsed) = match Self::parse_head(request) {
            Ok(parts) => parts,
            Err(e) => {
                return Err(e);
            },
        };
        let mut req = match parsed {
            Some(req) => req,
            None => {
                return Ok((request, None));
            },
        };
        let declared: usize = req.body_len;
        if declared == 0 {
            return Ok((rest, Some(req)));
        }
        let available: usize = rest.len();
        if available < declared {
            return Ok((request, None));
        }
        req.set_body(slice_subrange(rest, 0, declared));
        Ok((slice_subrange(rest, declared, available), Some(req)))
    }

    /// The method of the request as a value, if what stands in the request
    /// line is a token.
    pub fn parse_method(&self) -> (res: Result<Method, InvalidMethod>)
        ensures
            res is Ok <==> is_token(self.method.spec_bytes()),
            res matches Ok(m) ==> m@ == self.method.spec_bytes() && m.form() == form_of(m@)
                && m.wf(),
    {
        Method::from_bytes(self.method.as_bytes())
    }

    /// Sets the body of the request.
    pub fn set_body(&mut self, body: &'a [u8])
        requires
            body@.len() == old(self).body_len,
        ensures
            final(self).body == Some(body),
            final(self).method == old(self).method,
            final(self).path == old(self).path,
            final(self).query == old(self).query,
            final(self).headers == old(self).headers,
            final(self).body_len == old(self).body_len,
    {
        self.body = Some(body);
    }
}

/// What follows a separator that `split_once` found ends the input.
pub proof fn lemma_split_rest_is_suffix(s: Seq<u8>, pat: Seq<u8>)
    ensures
        split_once(s, pat) matches Some((_, rest)) ==> rest.is_suffix_of(s) && rest.len()
            + pat.len() <= s.len(),
{
    lemma_find_is_first(s, pat);
}

/// What follows a header block ends the input that the block was read from.
pub proof fn lemma_block_rest_is_suffix(s: Seq<u8>, acc: Map<Seq<u8>, Seq<u8>>)
    ensures
        header_block(s, acc) matches Decoded::Complete((_, rest)) ==> rest.is_suffix_of(s),
    decreases s.len(),
{
    lemma_split_rest_is_suffix(s, crlf());
    match split_once(s, crlf()) {
        None => {},
        Some((line, rest)) => {
            if valid_utf8(line) && line.len() != 0 {
                match split_once(line, colon_space()) {
                    None => {},
                    Some((name, value)) => {
                        lemma_block_rest_is_suffix(rest, acc.insert(name, value));
                        match header_block(rest, acc.insert(name, value)) {
                            Decoded::Complete((_, after)) => {
                                assert(after =~= s.subrange(s.len() - after.len(), s.len() as int));
                            },
                            _ => {},
                        }
                    },
                }
            }
        },
    }
}

/// The remainder that comes with a decoded head is the end of the input:
/// nothing is skipped, and nothing is made up.
pub proof fn lemma_head_rest_is_suffix(s: Seq<u8>)
    ensures
        decode_head(s) matches Decoded::Complete(head) ==> head.rest.is_suffix_of(s),
{
    lemma_split_rest_is_suffix(s, crlf());
    match split_once(s, crlf()) {
        None => {},
        Some((line, rest)) => {
            lemma_block_rest_is_suffix(rest, Map::empty());
            match decode_head(s) {
                Decoded::Complete(head) => {
                    assert(head.rest =~= s.subrange(s.len() - head.rest.len(), s.len() as int));
                },
                _ => {},
            }
        },
    }
}

/// A decoded message splits what follows its head into the body, of the
/// declared length, and the remainder.
pub proof fn lemma_message_splits_the_rest(s: Seq<u8>)
    ensures
        decode_message(s) matches Decoded::Complete(message) ==> {
            &&& decode_head(s) == Decoded::Complete(message.head)
            &&& match message.body {
                Some(body) => body.len() == message.head.body_len && message.head.body_len > 0
                    && body + message.rest == message.head.rest,
                None => message.head.body_len == 0 && message.rest == message.head.rest,
            }
        },
{
    match decode_message(s) {
        Decoded::Complete(message) => {
            match message.body {
                Some(body) => {
                    assert(body + message.rest =~= message.head.rest);
                },
                None => {},
            }
        },
        _ => {},
    }
}

/// A buffer without a line terminator holds no request yet, whatever it
/// holds; the empty buffer is one of these.
pub proof fn lemma_no_terminator_is_incomplete(s: Seq<u8>)
    requires
        forall|i: int| 0 <= i < s.len() - 1 ==> !(#[trigger] s[i] == 0x0d && s[i + 1] == 0x0a),
    ensures
        decode_head(s) is Incomplete,
        decode_message(s) is Incomplete,
{
    lemma_find_is_first(s, crlf());
    match find(s, crlf()) {
        Some(i) => {
            assert(s.subrange(i, i + 2)[0] == s[i]);
            assert(s.subrange(i, i + 2)[1] == s[i + 1]);
        },
        None => {},
    }
}

/// `head` with `t` appended to its remainder.
pub open spec fn head_followed_by(head: Head, t: Seq<u8>) -> Head {
    Head { rest: head.rest + t, ..head }
}

/// `message` with `t` appended to its remainder.
pub open spec fn message_followed_by(message: Message, t: Seq<u8>) -> Message {
    Message {
        head: head_followed_by(message.head, t),
        body: message.body,
        rest: message.rest + t,
    }
}

/// A header block that was decoded, or refused, stays so when bytes are
/// appended to the input.
pub proof fn lemma_block_extends(s: Seq<u8>, t: Seq<u8>, acc: Map<Seq<u8>, Seq<u8>>)
    ensures
        match header_block(s, acc) {
            Decoded::Incomplete => true,
            Decoded::Invalid(e) => header_block(s + t, acc) == Decoded::<
                (Map<Seq<u8>, Seq<u8>>, Seq<u8>),
            >::Invalid(e),
            Decoded::Complete((headers, rest)) => header_block(s + t, acc) == Decoded::Complete(
                (headers, rest + t),
            ),
        },
    decreases s.len(),
{
    lemma_split_extends(s, t, crlf());
    lemma_find_is_first(s, crlf());
    match split_once(s, crlf()) {
        None => {},
        Some((line, rest)) => {
            if valid_utf8(line) && line.len() != 0 {
                match split_once(line, colon_space()) {
                    None => {},
                    Some((name, value)) => {
                        lemma_block_extends(rest, t, acc.insert(name, value));
                    },
                }
            }
        },
    }
}

/// More bytes never change what was decoded: a head that was decoded from
/// a buffer is decoded from every longer buffer, with the new bytes at the
/// end of the remainder, and a buffer that was refused stays refused for the
/// same reason.
pub proof fn lemma_head_extends(s: Seq<u8>, t: Seq<u8>)
    ensures
        match decode_head(s) {
            Decoded::Incomplete => true,
            Decoded::Invalid(e) => decode_head(s + t) == Decoded::<Head>::Invalid(e),
            Decoded::Complete(head) => decode_head(s + t) == Decoded::Complete(
                head_followed_by(head, t),
            ),
        },
{
    lemma_split_extends(s, t, crlf());
    match split_once(s, crlf()) {
        None => {},
        Some((line, rest)) => {
            lemma_block_extends(rest, t, Map::empty());
        },
    }
}

/// More bytes never change a message that was decoded, nor the reason for
/// which a buffer was refused.
pub proof fn lemma_message_extends(s: Seq<u8>, t: Seq<u8>)
    ensures
        match decode_message(s) {
            Decoded::Incomplete => true,
            Decoded::Invalid(e) => decode_message(s + t) == Decoded::<Message>::Invalid(e),
            Decoded::Complete(message) => decode_message(s + t) == Decoded::Complete(
                message_followed_by(message, t),
            ),
        },
{
    lemma_head_extends(s, t);
    match decode_message(s) {
        Decoded::Complete(message) => {
            let head = message.head;
            if head.body_len > 0 {
                let n = head.body_len as int;
                assert((head.rest + t).subrange(0, n) =~= head.rest.subrange(0, n));
                assert((head.rest + t).subrange(n, (head.rest + t).len() as int)
                    =~= head.rest.subrange(n, head.rest.len() as int) + t);
            }
        },
        _ => {},
    }
}

} // verus!
