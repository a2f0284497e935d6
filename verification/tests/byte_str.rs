use bytes::Bytes;
use http_decode::byte_str::ByteStr;
use http_decode::request::ParseError;

#[test]
fn new_byte_str_is_empty() {
    let s = ByteStr::new();
    assert_eq!(s.as_str(), "");
    assert_eq!(s.len(), 0);
}

#[test]
fn from_static_keeps_the_text() {
    let s = ByteStr::from_static("hello w\u{f6}rld");
    assert_eq!(s.as_str(), "hello w\u{f6}rld");
    assert_eq!(s.len(), 12);
}

#[test]
fn from_utf8_accepts_valid_bytes() {
    let s = ByteStr::from_utf8(Bytes::from_static(b"GET")).unwrap();
    assert_eq!(s.as_str(), "GET");
    let s = ByteStr::from_utf8(Bytes::from(vec![0xe2, 0x9c, 0x93])).unwrap();
    assert_eq!(s.as_str(), "\u{2713}");
    assert_eq!(s.len(), 3);
    let s = ByteStr::from_utf8(Bytes::new()).unwrap();
    assert_eq!(s.as_str(), "");
}

#[test]
fn from_utf8_rejects_invalid_bytes() {
    for bad in [&b"\xff"[..], b"ab\xc3", b"\xc3\x28", b"\xed\xa0\x80", b"\xc0\xaf", b"a\x80"] {
        match ByteStr::from_utf8(Bytes::copy_from_slice(bad)) {
            Err(e) => assert_eq!(e, ParseError::InvalidEncoding),
            Ok(_) => panic!("invalid bytes were accepted"),
        }
    }
}

#[test]
fn from_utf8_unchecked_keeps_the_buffer() {
    let s = ByteStr::from_utf8_unchecked(Bytes::from_static(b"/index.html"));
    assert_eq!(s.as_str(), "/index.html");
}

#[test]
fn from_string_and_copy_keep_the_text() {
    let s = ByteStr::from_string(String::from("localhost:4221"));
    assert_eq!(s.as_str(), "localhost:4221");
    let text = String::from("curl/7.64.1");
    let s = ByteStr::copy_from_str(&text);
    drop(text);
    assert_eq!(s.as_str(), "curl/7.64.1");
}

#[test]
fn into_bytes_gives_the_buffer_back() {
    let b = ByteStr::from_static("abc").into_bytes();
    assert_eq!(&b[..], b"abc");
}

#[test]
fn byte_str_clone_and_order() {
    let a = ByteStr::from_static("abc");
    let b = a.clone();
    assert_eq!(a, b);
    assert_eq!(b.as_str(), "abc");
    assert!(ByteStr::from_static("abc") < ByteStr::from_static("abd"));
    assert_ne!(ByteStr::from_static("abc"), ByteStr::new());
}
