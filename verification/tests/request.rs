use sankode::request::{
    content_length_of, header_end, intake, parse_usize, request_target, route, Intake, Route, MAX_PAYLOAD_SIZE,
};

#[test]
fn head_ends_after_the_blank_line() {
    assert_eq!(header_end(b"GET / HTTP/1.1\r\nHost: x\r\n\r\nbody"), Some(27));
    assert_eq!(header_end(b"GET / HTTP/1.1\r\n"), None);
    assert_eq!(header_end(b"\r\n\r\n"), Some(4));
    assert_eq!(header_end(b""), None);
}

#[test]
fn announced_body_length() {
    assert_eq!(content_length_of("POST /api/run HTTP/1.1\r\nHost: a\r\ncontent-LENGTH:  42 "), 42);
    assert_eq!(content_length_of("POST /api/run HTTP/1.1\r\nHost: a"), 0);
    assert_eq!(content_length_of("POST / HTTP/1.1\r\nContent-Length: abc"), 0);
    assert_eq!(content_length_of("POST / HTTP/1.1\r\nContent-Length: +7\r\nX: y"), 7);
    assert_eq!(content_length_of("POST / HTTP/1.1\r\nContent-Length: 3\r\nContent-Length: 9"), 9);
    assert_eq!(content_length_of("POST / HTTP/1.1\r\nContent-Length: 5:6"), 5);
    assert_eq!(content_length_of("X-Content-Length: 5"), 0);
}

#[test]
fn unsigned_numbers() {
    assert_eq!(parse_usize("0"), Some(0));
    assert_eq!(parse_usize("+12"), Some(12));
    assert_eq!(parse_usize(&usize::MAX.to_string()), Some(usize::MAX));
    assert_eq!(parse_usize(&format!("{}0", usize::MAX)), None);
    assert_eq!(parse_usize(""), None);
    assert_eq!(parse_usize("+"), None);
    assert_eq!(parse_usize("-1"), None);
    assert_eq!(parse_usize("1 2"), None);
}

#[test]
fn method_and_path() {
    assert_eq!(
        request_target("GET /index.html HTTP/1.1\r\nHost: x\r\n\r\n"),
        Some(("GET".to_string(), "/index.html".to_string()))
    );
    assert_eq!(
        request_target("  POST\t/api/run  HTTP/1.1\r\n\r\n"),
        Some(("POST".to_string(), "/api/run".to_string()))
    );
    assert_eq!(request_target("GET\r\n\r\n"), None);
    assert_eq!(request_target(""), None);
}

#[test]
fn routes() {
    assert_eq!(route("GET", "/"), Route::Page);
    assert_eq!(route("GET", "/index.html"), Route::Page);
    assert_eq!(route("POST", "/api/run"), Route::Run);
    assert_eq!(route("POST", "/api/check"), Route::Check);
    assert_eq!(route("POST", "/api/transliterate"), Route::Transliterate);
    assert_eq!(route("GET", "/api/run"), Route::NotFound);
    assert_eq!(route("POST", "/"), Route::NotFound);
}

#[test]
fn when_a_request_is_read() {
    assert_eq!(intake(10, None, 0), Intake::NeedMore);
    assert_eq!(intake(MAX_PAYLOAD_SIZE + 1, None, 0), Intake::TooLarge);
    assert_eq!(intake(30, Some(27), 3), Intake::Complete);
    assert_eq!(intake(29, Some(27), 3), Intake::NeedMore);
    assert_eq!(intake(10, Some(5), MAX_PAYLOAD_SIZE + 1), Intake::TooLarge);
    assert_eq!(intake(MAX_PAYLOAD_SIZE, Some(4), 0), Intake::Complete);
}
