//! The request method: one of nine standard names, or any other token.

use vstd::prelude::*;
use vstd::string::{is_ascii_spec_bytes, StringSliceAdditionalSpecFns};
use crate::extension::{all_token_bytes, AllocatedExtension, InlineExtension, InvalidMethod};
use crate::str_map::bytes_eq;

verus! {

/// Whether `name` is a token: not empty, and token bytes only.
pub open spec fn is_token(name: Seq<u8>) -> bool {
    name.len() > 0 && all_token_bytes(name)
}

/// Whether `name` is one of the four safe methods.
pub open spec fn is_safe_name(name: Seq<u8>) -> bool {
    ||| name == "GET".spec_bytes()
    ||| name == "HEAD".spec_bytes()
    ||| name == "OPTIONS".spec_bytes()
    ||| name == "TRACE".spec_bytes()
}

/// Whether `name` is one of the six idempotent methods: the safe ones, `PUT`
/// and `DELETE`.
pub open spec fn is_idempotent_name(name: Seq<u8>) -> bool {
    ||| is_safe_name(name)
    ||| name == "PUT".spec_bytes()
    ||| name == "DELETE".spec_bytes()
}

/// Whether `name` is one of the nine standard methods.
pub open spec fn is_standard_name(name: Seq<u8>) -> bool {
    ||| is_idempotent_name(name)
    ||| name == "POST".spec_bytes()
    ||| name == "CONNECT".spec_bytes()
    ||| name == "PATCH".spec_bytes()
}

/// The bytes of the nine standard names.
pub proof fn lemma_standard_names()
    ensures
        "GET".spec_bytes() == seq![0x47u8, 0x45u8, 0x54u8],
        "PUT".spec_bytes() == seq![0x50u8, 0x55u8, 0x54u8],
        "POST".spec_bytes() == seq![0x50u8, 0x4fu8, 0x53u8, 0x54u8],
        "HEAD".spec_bytes() == seq![0x48u8, 0x45u8, 0x41u8, 0x44u8],
        "PATCH".spec_bytes() == seq![0x50u8, 0x41u8, 0x54u8, 0x43u8, 0x48u8],
        "TRACE".spec_bytes() == seq![0x54u8, 0x52u8, 0x41u8, 0x43u8, 0x45u8],
        "DELETE".spec_bytes() == seq![0x44u8, 0x45u8, 0x4cu8, 0x45u8, 0x54u8, 0x45u8],
        "OPTIONS".spec_bytes() == seq![
            0x4fu8, 0x50u8, 0x54u8, 0x49u8, 0x4fu8, 0x4eu8, 0x53u8,
        ],
        "CONNECT".spec_bytes() == seq![
            0x43u8, 0x4fu8, 0x4eu8, 0x4eu8, 0x45u8, 0x43u8, 0x54u8,
        ],
{
    broadcast use is_ascii_spec_bytes;

    reveal_strlit("GET");
    reveal_strlit("PUT");
    reveal_strlit("POST");
    reveal_strlit("HEAD");
    reveal_strlit("PATCH");
    reveal_strlit("TRACE");
    reveal_strlit("DELETE");
    reveal_strlit("OPTIONS");
    reveal_strlit("CONNECT");
    assert(vstd::string::is_ascii("GET"));
    assert(vstd::string::is_ascii("PUT"));
    assert(vstd::string::is_ascii("POST"));
    assert(vstd::string::is_ascii("HEAD"));
    assert(vstd::string::is_ascii("PATCH"));
    assert(vstd::string::is_ascii("TRACE"));
    assert(vstd::string::is_ascii("DELETE"));
    assert(vstd::string::is_ascii("OPTIONS"));
    assert(vstd::string::is_ascii("CONNECT"));
    assert("GET".spec_bytes() =~= seq![0x47u8, 0x45u8, 0x54u8]);
    assert("PUT".spec_bytes() =~= seq![0x50u8, 0x55u8, 0x54u8]);
    assert("POST".spec_bytes() =~= seq![0x50u8, 0x4fu8, 0x53u8, 0x54u8]);
    assert("HEAD".spec_bytes() =~= seq![0x48u8, 0x45u8, 0x41u8, 0x44u8]);
    assert("PATCH".spec_bytes() =~= seq![0x50u8, 0x41u8, 0x54u8, 0x43u8, 0x48u8]);
    assert("TRACE".spec_bytes() =~= seq![0x54u8, 0x52u8, 0x41u8, 0x43u8, 0x45u8]);
    assert("DELETE".spec_bytes() =~= seq![0x44u8, 0x45u8, 0x4cu8, 0x45u8, 0x54u8, 0x45u8]);
    assert("OPTIONS".spec_bytes() =~= seq![
        0x4fu8, 0x50u8, 0x54u8, 0x49u8, 0x4fu8, 0x4eu8, 0x53u8,
    ]);
    assert("CONNECT".spec_bytes() =~= seq![
        0x43u8, 0x4fu8, 0x4eu8, 0x4eu8, 0x45u8, 0x43u8, 0x54u8,
    ]);
}

/// The length and the first byte of each standard name: no two of them
/// agree in both.
pub proof fn lemma_standard_marks()
    ensures
        "GET".spec_bytes().len() == 3 && "GET".spec_bytes()[0] == 0x47,
        "PUT".spec_bytes().len() == 3 && "PUT".spec_bytes()[0] == 0x50,
        "POST".spec_bytes().len() == 4 && "POST".spec_bytes()[0] == 0x50,
        "HEAD".spec_bytes().len() == 4 && "HEAD".spec_bytes()[0] == 0x48,
        "PATCH".spec_bytes().len() == 5 && "PATCH".spec_bytes()[0] == 0x50,
        "TRACE".spec_bytes().len() == 5 && "TRACE".spec_bytes()[0] == 0x54,
        "DELETE".spec_bytes().len() == 6 && "DELETE".spec_bytes()[0] == 0x44,
        "OPTIONS".spec_bytes().len() == 7 && "OPTIONS".spec_bytes()[0] == 0x4f,
        "CONNECT".spec_bytes().len() == 7 && "CONNECT".spec_bytes()[0] == 0x43,
{
    lemma_standard_names();
}

/// How a method keeps its name.
#[derive(Clone, Copy, Debug, PartialEq, Eq, Structural)]
pub enum Form {
    /// One of the nine standard methods: nothing is stored.
    Standard,
    /// Another name of at most 15 bytes, kept in place.
    Inline,
    /// Another name of more than 15 bytes, kept on the heap.
    Allocated,
}

/// The form that a method with the name `name` has.
pub open spec fn form_of(name: Seq<u8>) -> Form {
    if is_standard_name(name) {
        Form::Standard
    } else if name.len() <= InlineExtension::MAX {
        Form::Inline
    } else {
        Form::Allocated
    }
}

/// A request method.
#[derive(Hash)]
pub struct Method(Inner);

#[derive(Hash)]
enum Inner {
    Head,
    Options,
    Get,
    Post,
    Put,
    Delete,
    Trace,
    Connect,
    Patch,
    ExtensionInline(InlineExtension),
    ExtensionAllocated(AllocatedExtension),
}

impl View for Method {
    type V = Seq<u8>;

    /// The bytes of the method's name.
    closed spec fn view(&self) -> Seq<u8> {
        match self.0 {
            Inner::Head => "HEAD".spec_bytes(),
            Inner::Options => "OPTIONS".spec_bytes(),
            Inner::Get => "GET".spec_bytes(),
            Inner::Post => "POST".spec_bytes(),
            Inner::Put => "PUT".spec_bytes(),
            Inner::Delete => "DELETE".spec_bytes(),
            Inner::Trace => "TRACE".spec_bytes(),
            Inner::Connect => "CONNECT".spec_bytes(),
            Inner::Patch => "PATCH".spec_bytes(),
            Inner::ExtensionInline(inline) => inline@,
            Inner::ExtensionAllocated(allocated) => allocated@,
        }
    }
}

impl Method {
    /// The method `GET`.
    pub fn get() -> (r: Method)
        ensures
            r@ == "GET".spec_bytes(),
            r.form() == Form::Standard,
    {
        proof {
            lemma_standard_names();
        }
        Method(Inner::Get)
    }

    /// The method `POST`.
    pub fn post() -> (r: Method)
        ensures
            r@ == "POST".spec_bytes(),
            r.form() == Form::Standard,
    {
        proof {
            lemma_standard_names();
        }
        Method(Inner::Post)
    }

    /// The method `PUT`.
    pub fn put() -> (r: Method)
        ensures
            r@ == "PUT".spec_bytes(),
            r.form() == Form::Standard,
    {
        proof {
            lemma_standard_names();
        }
        Method(Inner::Put)
    }

    /// The method `DELETE`.
    pub fn delete() -> (r: Method)
        ensures
            r@ == "DELETE".spec_bytes(),
            r.form() == Form::Standard,
    {
        proof {
            lemma_standard_names();
        }
        Method(Inner::Delete)
    }

    /// The method `HEAD`.
    pub fn head() -> (r: Method)
        ensures
            r@ == "HEAD".spec_bytes(),
            r.form() == Form::Standard,
    {
        proof {
            lemma_standard_names();
        }
        Method(Inner::Head)
    }

    /// The method `OPTIONS`.
    pub fn options() -> (r: Method)
        ensures
            r@ == "OPTIONS".spec_bytes(),
            r.form() == Form::Standard,
    {
        proof {
            lemma_standard_names();
        }
        Method(Inner::Options)
    }

    /// The method `CONNECT`.
    pub fn connect() -> (r: Method)
        ensures
            r@ == "CONNECT".spec_bytes(),
            r.form() == Form::Standard,
    {
        proof {
            lemma_standard_names();
        }
        Method(Inner::Connect)
    }

    /// The method `PATCH`.
    pub fn patch() -> (r: Method)
        ensures
            r@ == "PATCH".spec_bytes(),
            r.form() == Form::Standard,
    {
        proof {
            lemma_standard_names();
        }
        Method(Inner::Patch)
    }

    /// The method `TRACE`.
    pub fn trace() -> (r: Method)
        ensures
            r@ == "TRACE".spec_bytes(),
            r.form() == Form::Standard,
    {
        proof {
            lemma_standard_names();
        }
        Method(Inner::Trace)
    }

    /// Reads a method from its name. `src` is accepted exactly when it is a
    /// token; the method then has `src` as its name, and the form that
    /// belongs to that name.
    pub fn from_bytes(src: &[u8]) -> (res: Result<Method, InvalidMethod>)
        ensures
            res is Ok <==> is_token(src@),
            res matches Ok(m) ==> m@ == src@ && m.form() == form_of(src@) && m.wf(),
    {
        proof {
            lemma_standard_names();
        }
        match src.len() {
            0 => Err(InvalidMethod::new()),
            3 => {
                if bytes_eq(src, "GET".as_bytes()) {
                    Ok(Method(Inner::Get))
                } else if bytes_eq(src, "PUT".as_bytes()) {
                    Ok(Method(Inner::Put))
                } else {
                    Method::extension_inline(src)
                }
            },
            4 => {
                if bytes_eq(src, "POST".as_bytes()) {
                    Ok(Method(Inner::Post))
                } else if bytes_eq(src, "HEAD".as_bytes()) {
                    Ok(Method(Inner::Head))
                } else {
                    Method::extension_inline(src)
                }
            },
            5 => {
                if bytes_eq(src, "PATCH".as_bytes()) {
                    Ok(Method(Inner::Patch))
                } else if bytes_eq(src, "TRACE".as_bytes()) {
                    Ok(Method(Inner::Trace))
                } else {
                    Method::extension_inline(src)
                }
            },
            6 => {
                if bytes_eq(src, "DELETE".as_bytes()) {
                    Ok(Method(Inner::Delete))
                } else {
                    Method::extension_inline(src)
                }
            },
            7 => {
                if bytes_eq(src, "OPTIONS".as_bytes()) {
                    Ok(Method(Inner::Options))
                } else if bytes_eq(src, "CONNECT".as_bytes()) {
                    Ok(Method(Inner::Connect))
                } else {
                    Method::extension_inline(src)
                }
            },
            _ => {
                if src.len() <= InlineExtension::MAX {
                    Method::extension_inline(src)
                } else {
                    match AllocatedExtension::new(src) {
                        Ok(allocated) => Ok(Method(Inner::ExtensionAllocated(allocated))),
                        Err(e) => Err(e),
                    }
                }
            },
        }
    }

    /// Reads a method that is none of the standard ones from a name of at
    /// most 15 bytes.
    fn extension_inline(src: &[u8]) -> (res: Result<Method, InvalidMethod>)
        requires
            0 < src@.len() <= InlineExtension::MAX,
            !is_standard_name(src@),
        ensures
            res is Ok <==> all_token_bytes(src@),
            res matches Ok(m) ==> m@ == src@ && m.form() == Form::Inline && m.wf(),
    {
        match InlineExtension::new(src) {
            Ok(inline) => Ok(Method(Inner::ExtensionInline(inline))),
            Err(e) => Err(e),
        }
    }

    /// Whether the method is safe: it does not change the resource.
    pub fn is_safe(&self) -> (b: bool)
        ensures
            b == is_safe_name(self@),
    {
        proof {
            use_type_invariant(self);
            lemma_standard_marks();
        }
        match self.0 {
            Inner::Get | Inner::Head | Inner::Options | Inner::Trace => true,
            _ => false,
        }
    }

    /// Whether the method is idempotent: doing it twice is doing it once.
    pub fn is_idempotent(&self) -> (b: bool)
        ensures
            b == is_idempotent_name(self@),
    {
        proof {
            use_type_invariant(self);
            lemma_standard_marks();
        }
        match self.0 {
            Inner::Put | Inner::Delete => true,
            _ => self.is_safe(),
        }
    }

    /// The method's name.
    pub fn as_str(&self) -> (r: &str)
        ensures
            r.spec_bytes() == self@,
    {
        match self.0 {
            Inner::Head => "HEAD",
            Inner::Options => "OPTIONS",
            Inner::Get => "GET",
            Inner::Post => "POST",
            Inner::Put => "PUT",
            Inner::Delete => "DELETE",
            Inner::Trace => "TRACE",
            Inner::Connect => "CONNECT",
            Inner::Patch => "PATCH",
            Inner::ExtensionInline(ref inline) => inline.as_str(),
            Inner::ExtensionAllocated(ref allocated) => allocated.as_str(),
        }
    }

    /// How the method keeps its name.
    pub closed spec fn spec_form(&self) -> Form {
        match self.0 {
            Inner::ExtensionInline(_) => Form::Inline,
            Inner::ExtensionAllocated(_) => Form::Allocated,
            _ => Form::Standard,
        }
    }

    /// How the method keeps its name.
    #[verifier::when_used_as_spec(spec_form)]
    pub fn form(&self) -> (f: Form)
        ensures
            f == self.form(),
            f == form_of(self@),
    {
        proof {
            use_type_invariant(self);
        }
        match self.0 {
            Inner::ExtensionInline(_) => Form::Inline,
            Inner::ExtensionAllocated(_) => Form::Allocated,
            _ => Form::Standard,
        }
    }

    /// The name is a token, and it is kept in the form that belongs to it.
    #[verifier::type_invariant]
    pub closed spec fn wf(&self) -> bool {
        &&& is_token(self@)
        &&& self.form() == form_of(self@)
        &&& match self.0 {
            Inner::ExtensionInline(inline) => inline.wf(),
            Inner::ExtensionAllocated(allocated) => allocated.wf(),
            _ => true,
        }
    }
}

impl PartialEq for Method {
    /// Two methods are equal when their names are.
    fn eq(&self, other: &Method) -> (r: bool) {
        bytes_eq(self.as_str().as_bytes(), other.as_str().as_bytes())
    }
}

impl vstd::std_specs::cmp::PartialEqSpecImpl for Method {
    open spec fn obeys_eq_spec() -> bool {
        true
    }

    open spec fn eq_spec(&self, other: &Method) -> bool {
        self@ == other@
    }
}

impl Eq for Method {

}

impl PartialEq<str> for Method {
    /// A method is equal to a string when its name is that string.
    fn eq(&self, other: &str) -> (r: bool) {
        bytes_eq(self.as_str().as_bytes(), other.as_bytes())
    }
}

impl vstd::std_specs::cmp::PartialEqSpecImpl<str> for Method {
    open spec fn obeys_eq_spec() -> bool {
        true
    }

    open spec fn eq_spec(&self, other: &str) -> bool {
        self@ == other.spec_bytes()
    }
}

impl<'a> PartialEq<&'a str> for Method {
    /// A method is equal to a string when its name is that string.
    fn eq(&self, other: &&'a str) -> (r: bool) {
        bytes_eq(self.as_str().as_bytes(), (*other).as_bytes())
    }
}

impl<'a> vstd::std_specs::cmp::PartialEqSpecImpl<&'a str> for Method {
    open spec fn obeys_eq_spec() -> bool {
        true
    }

    open spec fn eq_spec(&self, other: &&'a str) -> bool {
        self@ == (*other).spec_bytes()
    }
}

impl AsRef<str> for Method {
    /// The method's name.
    fn as_ref(&self) -> (r: &str)
        ensures
            r.spec_bytes() == self@,
    {
        self.as_str()
    }
}

impl Clone for Method {
    /// A copy with the same name, kept in the same form.
    fn clone(&self) -> (r: Self)
        ensures
            r@ == self@,
            r.form() == self.form(),
    {
        proof {
            use_type_invariant(self);
        }
        match self.0 {
            Inner::Head => Method(Inner::Head),
            Inner::Options => Method(Inner::Options),
            Inner::Get => Method(Inner::Get),
            Inner::Post => Method(Inner::Post),
            Inner::Put => Method(Inner::Put),
            Inner::Delete => Method(Inner::Delete),
            Inner::Trace => Method(Inner::Trace),
            Inner::Connect => Method(Inner::Connect),
            Inner::Patch => Method(Inner::Patch),
            Inner::ExtensionInline(ref inline) => Method(Inner::ExtensionInline(inline.clone())),
            Inner::ExtensionAllocated(ref allocated) => Method(
                Inner::ExtensionAllocated(allocated.clone()),
            ),
        }
    }
}

impl Default for Method {
    /// `GET`.
    fn default() -> (r: Self)
        ensures
            r@ == "GET".spec_bytes(),
    {
        Method::get()
    }
}

impl core::str::FromStr for Method {
    type Err = InvalidMethod;

    /// Reads a method from its name, as `from_bytes` does.
    fn from_str(s: &str) -> (res: Result<Self, Self::Err>)
        ensures
            res is Ok <==> is_token(s.spec_bytes()),
            res matches Ok(m) ==> m@ == s.spec_bytes() && m.form() == form_of(s.spec_bytes())
                && m.wf(),
    {
        Method::from_bytes(s.as_bytes())
    }
}

/// The name of a valid method is a token, and the method keeps it in the
/// form that belongs to it.
pub proof fn lemma_valid_method(m: Method)
    requires
        m.wf(),
    ensures
        is_token(m@),
        m.form() == form_of(m@),
{
}

/// A standard name has between 3 and 7 bytes.
pub proof fn lemma_standard_is_short(name: Seq<u8>)
    requires
        is_standard_name(name),
    ensures
        3 <= name.len() <= 7,
{
    lemma_standard_names();
}

} // verus!
