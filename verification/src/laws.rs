//! What holds of the method type and of the byte string as a whole, stated
//! over their functions.

use vstd::prelude::*;
use vstd::std_specs::cmp::PartialEqSpec;
use vstd::string::StringSliceAdditionalSpecFns;
use bytes::Bytes;
use crate::byte_str::{contents, ByteStr};
use crate::extension::InvalidMethod;
use crate::method::{
    is_standard_name, is_token, lemma_standard_is_short, lemma_standard_names, lemma_valid_method,
    Form, Method,
};
use crate::request::ParseError;
use crate::text::lemma_same_bytes_same_text;
use crate::token::is_token_byte;

verus! {

/// Reading a method from a name and asking it for its name gives the name
/// back, byte for byte.
pub proof fn law_method_round_trip(
    src: &[u8],
    parsed: Result<Method, InvalidMethod>,
    method: Method,
    text: &str,
)
    requires
        call_ensures(Method::from_bytes, (src,), parsed),
        parsed == Ok::<Method, InvalidMethod>(method),
        call_ensures(Method::as_str, (&method,), text),
    ensures
        text.spec_bytes() == src@,
{
}

/// Making a byte string of a buffer and asking it for its text gives the
/// bytes of the buffer back.
pub proof fn law_byte_str_round_trip(
    buffer: Bytes,
    made: Result<ByteStr, ParseError>,
    string: ByteStr,
    text: &str,
)
    requires
        call_ensures(ByteStr::from_utf8, (buffer,), made),
        made == Ok::<ByteStr, ParseError>(string),
        call_ensures(ByteStr::as_str, (&string,), text),
    ensures
        text.spec_bytes() == contents(buffer),
{
}

/// A method whose name is none of the nine standard ones keeps it in place
/// where it has at most 15 bytes, and on the heap where it has more.
pub proof fn law_form_by_length(src: &[u8], parsed: Result<Method, InvalidMethod>, method: Method)
    requires
        call_ensures(Method::from_bytes, (src,), parsed),
        parsed == Ok::<Method, InvalidMethod>(method),
        !is_standard_name(src@),
    ensures
        src@.len() <= 15 ==> method.form() == Form::Inline,
        src@.len() > 15 ==> method.form() == Form::Allocated,
{
}

/// Every method keeps its name in the form that the name calls for: a
/// standard name needs no storage, and of the others the length decides.
pub proof fn law_form_of_every_method(m: Method)
    requires
        m.wf(),
    ensures
        m@.len() > 0,
        is_standard_name(m@) <==> m.form() == Form::Standard,
        !is_standard_name(m@) && m@.len() <= 15 <==> m.form() == Form::Inline,
        m@.len() > 15 <==> m.form() == Form::Allocated,
{
    lemma_valid_method(m);
    if is_standard_name(m@) {
        lemma_standard_is_short(m@);
    }
}

/// Two methods that give the same name are equal, and keep the name in the
/// same form.
pub proof fn law_same_text_same_method(a: Method, b: Method, text_a: &str, text_b: &str)
    requires
        a.wf(),
        b.wf(),
        call_ensures(Method::as_str, (&a,), text_a),
        call_ensures(Method::as_str, (&b,), text_b),
        text_a.spec_bytes() == text_b.spec_bytes(),
    ensures
        a.eq_spec(&b),
        a.form() == b.form(),
        text_a@ == text_b@,
{
    lemma_valid_method(a);
    lemma_valid_method(b);
    lemma_same_bytes_same_text(text_a, text_b);
}

/// A method is safe exactly when its name is `GET`, `HEAD`, `OPTIONS` or
/// `TRACE`, and idempotent exactly when it is safe or its name is `PUT` or
/// `DELETE`.
pub proof fn law_safe_and_idempotent(m: Method, safe: bool, idempotent: bool, text: &str)
    requires
        call_ensures(Method::is_safe, (&m,), safe),
        call_ensures(Method::is_idempotent, (&m,), idempotent),
        call_ensures(Method::as_str, (&m,), text),
    ensures
        safe <==> {
            ||| text.spec_bytes() == "GET".spec_bytes()
            ||| text.spec_bytes() == "HEAD".spec_bytes()
            ||| text.spec_bytes() == "OPTIONS".spec_bytes()
            ||| text.spec_bytes() == "TRACE".spec_bytes()
        },
        idempotent <==> {
            ||| safe
            ||| text.spec_bytes() == "PUT".spec_bytes()
            ||| text.spec_bytes() == "DELETE".spec_bytes()
        },
{
}

/// A name with a byte outside the token alphabet is no method, wherever
/// that byte stands.
pub proof fn law_invalid_byte_rejects(src: &[u8], parsed: Result<Method, InvalidMethod>, i: int)
    requires
        call_ensures(Method::from_bytes, (src,), parsed),
        0 <= i < src@.len(),
        !is_token_byte(src@[i]),
    ensures
        parsed is Err,
{
}

/// A space, a control character and `@` lie outside the token alphabet, and
/// so do all bytes from `0x7f` on.
pub proof fn law_bytes_outside_the_alphabet(b: u8)
    ensures
        b <= 0x20 || b >= 0x7f || b == 0x40 ==> !is_token_byte(b),
{
}

/// The nine standard names are tokens, so each of them is read as a method.
pub proof fn law_standard_names_are_tokens(name: Seq<u8>)
    requires
        is_standard_name(name),
    ensures
        is_token(name),
{
    lemma_standard_names();
}

} // verus!
