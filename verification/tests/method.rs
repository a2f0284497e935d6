use http_decode::extension::{write_checked, AllocatedExtension, InlineExtension};
use http_decode::method::{Form, Method};
use http_decode::token::{method_char, METHOD_CHARS};
use std::collections::hash_map::DefaultHasher;
use std::hash::{Hash, Hasher};

fn hash_of(m: &Method) -> u64 {
    let mut h = DefaultHasher::new();
    m.hash(&mut h);
    h.finish()
}

fn form_of(name: &[u8]) -> Form {
    Method::from_bytes(name).unwrap().form()
}

const STANDARD: [&str; 9] =
    ["GET", "POST", "PUT", "DELETE", "HEAD", "OPTIONS", "CONNECT", "PATCH", "TRACE"];

const SYMBOLS: &[u8] = b"!#$%&'*+-.^_`|~";

fn is_token_byte(b: u8) -> bool {
    b.is_ascii_alphanumeric() || SYMBOLS.contains(&b)
}

#[test]
fn standard_names_round_trip() {
    for name in STANDARD {
        let method = Method::from_bytes(name.as_bytes()).unwrap();
        assert_eq!(method.as_str(), name);
    }
}

#[test]
fn extension_names_round_trip() {
    for name in ["a", "get", "Get", "GETS", "PURGE", "M-SEARCH", "x.y_z~1", "!#$%&'*+-.^_`|~"] {
        let method = Method::from_bytes(name.as_bytes()).unwrap();
        assert_eq!(method.as_str(), name);
    }
}

#[test]
fn names_of_every_length_round_trip() {
    for len in 1..=40usize {
        let name = "Z".repeat(len);
        let method = Method::from_bytes(name.as_bytes()).unwrap();
        assert_eq!(method.as_str(), name);
        assert_eq!(method.as_str().len(), len);
    }
}

#[test]
fn empty_name_is_invalid() {
    assert!(Method::from_bytes(b"").is_err());
    assert!("".parse::<Method>().is_err());
}

#[test]
fn byte_outside_the_token_alphabet_is_invalid_at_any_position() {
    for bad in [b' ', b'@', b'\0', b'\t', b'\r', b'\n', 0x7f, 0x80, 0xff, b'(', b')', b',', b'/', b':', b'"'] {
        for len in [1usize, 3, 5, 15, 16, 30] {
            for position in 0..len {
                let mut name = vec![b'A'; len];
                name[position] = bad;
                assert!(Method::from_bytes(&name).is_err());
            }
        }
    }
    assert!(Method::from_bytes(b"GE T").is_err());
    assert!(Method::from_bytes(b"GET ").is_err());
    assert!(Method::from_bytes(b" GET").is_err());
}

#[test]
fn every_single_byte_is_accepted_exactly_when_it_is_a_token_byte() {
    for b in 0..=255u8 {
        assert_eq!(Method::from_bytes(&[b]).is_ok(), is_token_byte(b));
        assert_eq!(Method::from_bytes(&[b'X', b, b'X']).is_ok(), is_token_byte(b));
        let long = [b; 20];
        assert_eq!(Method::from_bytes(&long).is_ok(), is_token_byte(b));
    }
}

#[test]
fn table_holds_each_token_byte_and_zero_elsewhere() {
    for b in 0..=255u8 {
        let expected = if is_token_byte(b) { b } else { 0 };
        assert_eq!(METHOD_CHARS[b as usize], expected);
        assert_eq!(method_char(b), expected);
    }
    assert_eq!(method_char(b'#'), b'#');
    assert_eq!(method_char(b'\''), b'\'');
    assert_eq!(method_char(b'@'), 0);
    assert_eq!(method_char(b' '), 0);
}

#[test]
fn safe_methods_are_get_head_options_trace() {
    for name in STANDARD {
        let method = Method::from_bytes(name.as_bytes()).unwrap();
        let expected = matches!(name, "GET" | "HEAD" | "OPTIONS" | "TRACE");
        assert_eq!(method.is_safe(), expected);
    }
    assert!(!Method::from_bytes(b"get").unwrap().is_safe());
    assert!(!Method::from_bytes(b"PURGE").unwrap().is_safe());
    assert!(!Method::from_bytes(b"A-VERY-LONG-METHOD-NAME").unwrap().is_safe());
}

#[test]
fn idempotent_methods_are_the_safe_ones_and_put_and_delete() {
    for name in STANDARD {
        let method = Method::from_bytes(name.as_bytes()).unwrap();
        let expected = matches!(name, "GET" | "HEAD" | "OPTIONS" | "TRACE" | "PUT" | "DELETE");
        assert_eq!(method.is_idempotent(), expected);
        assert_eq!(method.is_idempotent(), method.is_safe() || name == "PUT" || name == "DELETE");
    }
    assert!(!Method::from_bytes(b"put").unwrap().is_idempotent());
    assert!(!Method::from_bytes(b"A-VERY-LONG-METHOD-NAME").unwrap().is_idempotent());
}

#[test]
fn constructors_give_the_standard_methods() {
    assert_eq!(Method::get().as_str(), "GET");
    assert_eq!(Method::post().as_str(), "POST");
    assert_eq!(Method::put().as_str(), "PUT");
    assert_eq!(Method::delete().as_str(), "DELETE");
    assert_eq!(Method::head().as_str(), "HEAD");
    assert_eq!(Method::options().as_str(), "OPTIONS");
    assert_eq!(Method::connect().as_str(), "CONNECT");
    assert_eq!(Method::patch().as_str(), "PATCH");
    assert_eq!(Method::trace().as_str(), "TRACE");
    assert!(Method::get() == Method::from_bytes(b"GET").unwrap());
    assert!(Method::trace() == Method::from_bytes(b"TRACE").unwrap());
}

#[test]
fn default_is_get() {
    assert_eq!(Method::default().as_str(), "GET");
    assert!(Method::default() == Method::get());
}

#[test]
fn equality_goes_by_the_name() {
    for a in ["GET", "PUT", "PURGE", "A-VERY-LONG-METHOD-NAME", "A-VERY-LONG-METHOD-NAMF"] {
        for b in ["GET", "PUT", "PURGE", "A-VERY-LONG-METHOD-NAME", "A-VERY-LONG-METHOD-NAMF"] {
            let x = Method::from_bytes(a.as_bytes()).unwrap();
            let y: Method = b.parse().unwrap();
            assert_eq!(x == y, a == b);
            assert_eq!(x != y, a != b);
        }
    }
}

#[test]
fn clone_is_equal_to_its_source() {
    for name in ["GET", "PURGE", "A-VERY-LONG-METHOD-NAME"] {
        let method = Method::from_bytes(name.as_bytes()).unwrap();
        let copy = method.clone();
        assert!(copy == method);
        assert_eq!(copy.as_str(), name);
    }
}

#[test]
fn equal_methods_hash_alike() {
    for name in ["GET", "OPTIONS", "PURGE", "ABCDEFGHIJKLMNO", "ABCDEFGHIJKLMNOP"] {
        let a = Method::from_bytes(name.as_bytes()).unwrap();
        let b: Method = name.parse().unwrap();
        let c = a.clone();
        assert_eq!(hash_of(&a), hash_of(&b));
        assert_eq!(hash_of(&a), hash_of(&c));
    }
}

#[test]
fn standard_names_need_no_storage() {
    for name in STANDARD {
        assert_eq!(form_of(name.as_bytes()), Form::Standard);
    }
    assert_eq!(Method::get().form(), Form::Standard);
    assert_eq!(Method::default().form(), Form::Standard);
}

#[test]
fn form_goes_by_the_length_of_the_name() {
    assert_eq!(InlineExtension::MAX, 15);
    for len in 1..=40usize {
        let name = vec![b'q'; len];
        let expected = if len <= 15 { Form::Inline } else { Form::Allocated };
        assert_eq!(form_of(&name), expected);
    }
    assert_eq!(form_of(b"get"), Form::Inline);
    assert_eq!(form_of(b"GETS"), Form::Inline);
    assert_eq!(form_of(b"ABCDEFGHIJKLMNO"), Form::Inline);
    assert_eq!(form_of(b"ABCDEFGHIJKLMNOP"), Form::Allocated);
}

#[test]
fn clone_keeps_the_form() {
    for name in ["GET", "PURGE", "A-VERY-LONG-METHOD-NAME"] {
        let method = Method::from_bytes(name.as_bytes()).unwrap();
        assert_eq!(method.clone().form(), method.form());
    }
}

#[test]
fn name_of_fifteen_bytes_fits_in_place() {
    let name = b"ABCDEFGHIJKLMNO";
    assert_eq!(name.len(), 15);
    let inline = InlineExtension::new(name).unwrap();
    assert_eq!(inline.as_str(), "ABCDEFGHIJKLMNO");
    let method = Method::from_bytes(name).unwrap();
    assert_eq!(method.as_str(), "ABCDEFGHIJKLMNO");
}

#[test]
fn inline_extension_keeps_what_it_was_given() {
    assert_eq!(InlineExtension::new(b"").unwrap().as_str(), "");
    assert_eq!(InlineExtension::new(b"a").unwrap().as_str(), "a");
    assert_eq!(InlineExtension::new(b"wow-so-short").unwrap().as_str(), "wow-so-short");
    assert!(InlineExtension::new(b"not ok").is_err());
    assert!(InlineExtension::new(b"\0").is_err());
    assert!(InlineExtension::new(b"a").unwrap().clone() == InlineExtension::new(b"a").unwrap());
    assert!(InlineExtension::new(b"a").unwrap() != InlineExtension::new(b"b").unwrap());
}

#[test]
fn allocated_extension_keeps_what_it_was_given() {
    assert_eq!(AllocatedExtension::new(b"").unwrap().as_str(), "");
    assert_eq!(AllocatedExtension::new(b"short").unwrap().as_str(), "short");
    assert_eq!(
        AllocatedExtension::new(b"wow-this-is-a-long-one").unwrap().as_str(),
        "wow-this-is-a-long-one"
    );
    assert!(AllocatedExtension::new(b"not so long but bad").is_err());
    let a = AllocatedExtension::new(b"long-long-long-long").unwrap();
    assert!(a.clone() == a);
}

#[test]
fn write_checked_copies_token_bytes() {
    let mut dst = [b'.'; 6];
    assert!(write_checked(b"abc", &mut dst).is_ok());
    assert_eq!(&dst, b"abc...");
    let mut dst = [0u8; 3];
    assert!(write_checked(b"x-y", &mut dst).is_ok());
    assert_eq!(&dst, b"x-y");
    let mut dst = [7u8; 2];
    assert!(write_checked(b"", &mut dst).is_ok());
    assert_eq!(dst, [7, 7]);
}

#[test]
fn write_checked_stops_at_the_first_invalid_byte() {
    let mut dst = [b'.'; 6];
    assert!(write_checked(b"ab cd", &mut dst).is_err());
    assert_eq!(&dst, b"ab....");
    let mut dst = [b'.'; 4];
    assert!(write_checked(b"@abc", &mut dst).is_err());
    assert_eq!(&dst, b"....");
}

#[test]
fn method_is_compared_with_its_name() {
    let get = Method::get();
    assert!(get == "GET");
    assert!(get != "get");
    assert!(get != "GE");
    assert!(get == *"GET");
    let purge = Method::from_bytes(b"PURGE").unwrap();
    assert!(purge == "PURGE");
    assert!(purge != "GET");
    let long = Method::from_bytes(b"A-VERY-LONG-METHOD-NAME").unwrap();
    assert!(long == "A-VERY-LONG-METHOD-NAME");
    assert!(long != "A-VERY-LONG-METHOD-NAMF");
    let name: &str = long.as_ref();
    assert_eq!(name, "A-VERY-LONG-METHOD-NAME");
}

#[test]
fn write_checked_needs_room_for_the_valid_front_only() {
    let mut dst = [0u8; 2];
    assert!(write_checked(b"A B", &mut dst).is_err());
    assert_eq!(dst, [b'A', 0]);
    let mut dst = [9u8; 1];
    assert!(write_checked(b"A B and much more", &mut dst).is_err());
    assert_eq!(dst, [b'A']);
    let mut dst: [u8; 0] = [];
    assert!(write_checked(b" ", &mut dst).is_err());
    assert!(write_checked(b"", &mut dst).is_ok());
}

#[test]
fn inline_extension_refuses_a_long_name_with_an_early_invalid_byte() {
    assert!(InlineExtension::new(b"not a token, and longer than fifteen bytes").is_err());
    assert!(InlineExtension::new(b"ABCDEFGHIJKLMNO and more").is_err());
}
