use hello::http::{response, route, starts_with_text, Route, STATUS_NOT_FOUND, STATUS_OK};

fn buffer_of(request: &str) -> [u8; 512] {
    let mut buffer = [0u8; 512];
    buffer[..request.len()].copy_from_slice(request.as_bytes());
    buffer
}

#[test]
fn root_request_gets_ok_and_page() {
    let buffer = buffer_of("GET / HTTP/1.1\r\nHost: 127.0.0.1:7878\r\n\r\n");
    let r = route(&buffer);
    assert_eq!(r, Route::Hello);
    assert!(!r.pauses());
    assert_eq!(r.resource(), "hello.html");
    let page = "<h1>Hello!</h1>\n";
    assert_eq!(
        response(r.status_line(), page),
        "HTTP/1.1 200 OK\r\n\r\n<h1>Hello!</h1>\n"
    );
}

#[test]
fn unknown_request_gets_not_found_and_page() {
    let buffer = buffer_of("GET /unknown HTTP/1.1\r\n\r\n");
    let r = route(&buffer);
    assert_eq!(r, Route::NotFound);
    assert_eq!(r.resource(), "404.html");
    assert_eq!(
        response(r.status_line(), "<h1>Oops!</h1>"),
        "HTTP/1.1 404 NOT FOUND\r\n\r\n<h1>Oops!</h1>"
    );
}

#[test]
fn sleep_request_pauses_then_gets_ok() {
    let r = route(&buffer_of("GET /sleep HTTP/1.1\r\n\r\n"));
    assert_eq!(r, Route::SleepThenHello);
    assert!(r.pauses());
    assert_eq!(r.status_line(), STATUS_OK);
    assert_eq!(r.resource(), "hello.html");
}

#[test]
fn short_or_partial_requests_are_not_found() {
    assert_eq!(route(b""), Route::NotFound);
    assert_eq!(route(b"GET / HTTP/1.1"), Route::NotFound);
    assert_eq!(route(b"GET / HTTP/1.1\r\n"), Route::Hello);
    assert_eq!(route(b"POST / HTTP/1.1\r\n"), Route::NotFound);
    assert_eq!(Route::NotFound.status_line(), STATUS_NOT_FOUND);
}

#[test]
fn prefix_check() {
    assert!(starts_with_text(b"abc", "ab"));
    assert!(starts_with_text(b"abc", ""));
    assert!(!starts_with_text(b"ab", "abc"));
    assert!(!starts_with_text(b"abc", "b"));
}
