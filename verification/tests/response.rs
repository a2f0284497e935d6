use http_decode::decimal::{parse_decimal, write_decimal};
use http_decode::request::HttpRequest;
use http_decode::response::{bare_response, not_found, ok, ok201, response, Status};
use http_decode::route::{answer, route, HttpMethod, MethodNotSupported, Route};

fn digits(n: usize) -> Vec<u8> {
    let mut out = Vec::new();
    write_decimal(n, &mut out);
    out
}

#[test]
fn decimal_is_written_without_leading_zeros() {
    assert_eq!(digits(0), b"0");
    assert_eq!(digits(7), b"7");
    assert_eq!(digits(10), b"10");
    assert_eq!(digits(4221), b"4221");
    assert_eq!(digits(1000000), b"1000000");
    assert_eq!(digits(usize::MAX), usize::MAX.to_string().as_bytes());
}

#[test]
fn decimal_is_appended_to_what_is_there() {
    let mut out = b"n=".to_vec();
    write_decimal(305, &mut out);
    assert_eq!(out, b"n=305");
}

#[test]
fn written_decimal_is_read_back() {
    for n in [0usize, 1, 9, 10, 99, 100, 12345, usize::MAX - 1, usize::MAX] {
        assert_eq!(parse_decimal(&digits(n)), Some(n));
    }
}

#[test]
fn status_has_its_code_and_line() {
    assert_eq!(Status::Success.code(), 200);
    assert_eq!(Status::Created.code(), 201);
    assert_eq!(Status::NotFound.code(), 404);
    assert_eq!(Status::Success.status_line(), "HTTP/1.1 200 OK\r\n");
    assert_eq!(Status::Created.status_line(), "HTTP/1.1 201 OK\r\n");
    assert_eq!(Status::NotFound.status_line(), "HTTP/1.1 404 Not Found\r\n");
}

#[test]
fn bare_response_is_a_status_line_and_a_blank_line() {
    assert_eq!(bare_response(Status::Success), b"HTTP/1.1 200 OK\r\n\r\n");
    assert_eq!(not_found(), b"HTTP/1.1 404 Not Found\r\n\r\n");
}

#[test]
fn response_carries_type_length_and_body() {
    assert_eq!(
        ok(b"abc", "text/plain"),
        b"HTTP/1.1 200 OK\r\nContent-Type: text/plain\r\nContent-Length: 3\r\n\r\nabc"
    );
    assert_eq!(
        ok201(b"write ok", "text/plain"),
        b"HTTP/1.1 201 OK\r\nContent-Type: text/plain\r\nContent-Length: 8\r\n\r\nwrite ok"
    );
    assert_eq!(
        ok(b"", "application/octet-stream"),
        b"HTTP/1.1 200 OK\r\nContent-Type: application/octet-stream\r\nContent-Length: 0\r\n\r\n"
    );
    assert_eq!(
        response(Status::NotFound, "text/plain", b"gone\r\n"),
        b"HTTP/1.1 404 Not Found\r\nContent-Type: text/plain\r\nContent-Length: 6\r\n\r\ngone\r\n"
    );
    let body = vec![b'x'; 1234];
    let bytes = ok(&body, "text/plain");
    assert!(bytes.starts_with(b"HTTP/1.1 200 OK\r\nContent-Type: text/plain\r\nContent-Length: 1234\r\n\r\n"));
    assert!(bytes.ends_with(&body));
}

#[test]
fn headers_of_a_response_are_read_back_by_the_decoder() {
    let mut wire = b"GET / HTTP/1.1\r\n".to_vec();
    let answer = ok(b"hello", "text/plain");
    let after_status = answer.iter().position(|&b| b == b'\n').unwrap() + 1;
    wire.extend_from_slice(&answer[after_status..]);
    let (rest, request) = HttpRequest::parse_request(&wire).unwrap();
    let request = request.unwrap();
    assert!(rest.is_empty());
    assert_eq!(request.headers.get("Content-Type"), Some(&"text/plain"));
    assert_eq!(request.body_len, 5);
    assert_eq!(request.body, Some(&b"hello"[..]));
}

#[test]
fn known_methods_are_read_by_name() {
    assert_eq!(HttpMethod::try_from("GET"), Ok(HttpMethod::Get));
    assert_eq!(HttpMethod::try_from("POST"), Ok(HttpMethod::Post));
    assert_eq!(HttpMethod::try_from("PUT"), Ok(HttpMethod::Put));
    assert_eq!(HttpMethod::try_from("TRACE"), Ok(HttpMethod::Trace));
    assert_eq!(HttpMethod::try_from("DELETE"), Ok(HttpMethod::Delete));
}

#[test]
fn other_methods_are_not_supported() {
    for name in ["", "get", "HEAD", "OPTIONS", "PATCH", "CONNECT", "GET ", "GETS", "G"] {
        assert_eq!(HttpMethod::try_from(name), Err(MethodNotSupported));
    }
    assert_eq!(MethodNotSupported.message(), "Method not supported!");
}

#[test]
fn get_is_routed_by_its_path() {
    assert_eq!(route(HttpMethod::Get, "/"), Route::Root);
    assert_eq!(route(HttpMethod::Get, "/user-agent"), Route::UserAgent);
    assert_eq!(route(HttpMethod::Get, "/echo/abc"), Route::Echo("abc"));
    assert_eq!(route(HttpMethod::Get, "/echo/"), Route::Echo(""));
    assert_eq!(route(HttpMethod::Get, "/echo/a/b"), Route::Echo("a/b"));
    assert_eq!(route(HttpMethod::Get, "/echo/caf\u{e9}"), Route::Echo("caf\u{e9}"));
    assert_eq!(route(HttpMethod::Get, "/files/a.txt"), Route::ReadFile("a.txt"));
    assert_eq!(route(HttpMethod::Get, "/files/"), Route::ReadFile(""));
    assert_eq!(route(HttpMethod::Get, "/echo"), Route::NotFound);
    assert_eq!(route(HttpMethod::Get, "/files"), Route::NotFound);
    assert_eq!(route(HttpMethod::Get, "/user-agent/"), Route::NotFound);
    assert_eq!(route(HttpMethod::Get, "/index.html"), Route::NotFound);
    assert_eq!(route(HttpMethod::Get, ""), Route::NotFound);
    assert_eq!(route(HttpMethod::Get, "/Echo/abc"), Route::NotFound);
}

#[test]
fn post_is_routed_to_files_only() {
    assert_eq!(route(HttpMethod::Post, "/files/a.txt"), Route::WriteFile("a.txt"));
    assert_eq!(route(HttpMethod::Post, "/files/"), Route::WriteFile(""));
    assert_eq!(route(HttpMethod::Post, "/"), Route::NotFound);
    assert_eq!(route(HttpMethod::Post, "/echo/abc"), Route::NotFound);
    assert_eq!(route(HttpMethod::Post, "/user-agent"), Route::NotFound);
}

#[test]
fn other_methods_get_no_response() {
    for method in [HttpMethod::Put, HttpMethod::Delete, HttpMethod::Trace] {
        assert_eq!(route(method, "/"), Route::NoResponse);
        assert_eq!(route(method, "/files/a"), Route::NoResponse);
        assert_eq!(route(method, "/echo/a"), Route::NoResponse);
    }
}

#[test]
fn root_is_answered_without_headers() {
    assert_eq!(answer(Route::Root, None, None), Some(b"HTTP/1.1 200 OK\r\n\r\n".to_vec()));
    assert_eq!(
        answer(Route::Root, Some("curl/7.64.1"), Some(b"x")),
        Some(b"HTTP/1.1 200 OK\r\n\r\n".to_vec())
    );
}

#[test]
fn user_agent_is_answered_with_the_header() {
    assert_eq!(
        answer(Route::UserAgent, Some("curl/7.64.1"), None),
        Some(
            b"HTTP/1.1 200 OK\r\nContent-Type: text/plain\r\nContent-Length: 11\r\n\r\ncurl/7.64.1"
                .to_vec()
        )
    );
    assert_eq!(answer(Route::UserAgent, None, None), None);
    assert_eq!(answer(Route::UserAgent, None, Some(b"file")), None);
}

#[test]
fn echo_is_answered_with_its_text() {
    assert_eq!(
        answer(Route::Echo("abc"), None, None),
        Some(b"HTTP/1.1 200 OK\r\nContent-Type: text/plain\r\nContent-Length: 3\r\n\r\nabc".to_vec())
    );
    assert_eq!(
        answer(Route::Echo(""), Some("agent"), None),
        Some(b"HTTP/1.1 200 OK\r\nContent-Type: text/plain\r\nContent-Length: 0\r\n\r\n".to_vec())
    );
}

#[test]
fn file_is_answered_with_what_it_holds() {
    assert_eq!(
        answer(Route::ReadFile("a.bin"), None, Some(&[0, 1, 255])),
        Some(
            b"HTTP/1.1 200 OK\r\nContent-Type: application/octet-stream\r\nContent-Length: 3\r\n\r\n\x00\x01\xff"
                .to_vec()
        )
    );
    assert_eq!(
        answer(Route::ReadFile("a.bin"), None, None),
        Some(b"HTTP/1.1 404 Not Found\r\n\r\n".to_vec())
    );
}

#[test]
fn written_file_is_answered_once() {
    let expected =
        b"HTTP/1.1 201 OK\r\nContent-Type: text/plain\r\nContent-Length: 8\r\n\r\nwrite ok".to_vec();
    assert_eq!(answer(Route::WriteFile("a.txt"), None, None), Some(expected.clone()));
    assert_eq!(answer(Route::WriteFile("a.txt"), Some("agent"), Some(b"old")), Some(expected));
}

#[test]
fn unknown_path_and_other_methods() {
    assert_eq!(answer(Route::NotFound, None, None), Some(b"HTTP/1.1 404 Not Found\r\n\r\n".to_vec()));
    assert_eq!(answer(Route::NoResponse, None, None), None);
    assert_eq!(answer(Route::NoResponse, Some("agent"), Some(b"file")), None);
}

#[test]
fn request_is_answered_from_end_to_end() {
    let wire = b"GET /echo/hello HTTP/1.1\r\nUser-Agent: curl/7.64.1\r\n\r\n";
    let (_, request) = HttpRequest::parse_request(wire).unwrap();
    let request = request.unwrap();
    let method = HttpMethod::try_from(request.method).unwrap();
    let found = route(method, request.path);
    assert_eq!(found, Route::Echo("hello"));
    let user_agent = request.headers.get("User-Agent").copied();
    assert_eq!(
        answer(found, user_agent, None),
        Some(b"HTTP/1.1 200 OK\r\nContent-Type: text/plain\r\nContent-Length: 5\r\n\r\nhello".to_vec())
    );
}
