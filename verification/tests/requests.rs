use simple_tcp_listener::route::{file_name, route, root_line_bytes, sleep_line_bytes, starts_with_bytes, status_line, Route};

#[test]
fn root_request_routes_to_index() {
    let buffer = b"GET / HTTP/1.1\r\nHost: localhost\r\n\r\n";
    assert_eq!(route(buffer), Route::Root);
    assert_eq!(status_line(Route::Root), "HTTP/1.1 200 OK");
    assert_eq!(file_name(Route::Root), "index.html");
}

#[test]
fn sleep_request_routes_to_slow_index() {
    let buffer = b"GET /sleep HTTP 1.1\r\nHost: localhost\r\n\r\n";
    assert_eq!(route(buffer), Route::Sleep);
    assert_eq!(status_line(Route::Sleep), "HTTP/1.1 200 OK");
    assert_eq!(file_name(Route::Sleep), "index.html");
}

#[test]
fn unknown_request_routes_to_not_found() {
    let buffer = b"POST /submit HTTP/1.1\r\n";
    assert_eq!(route(buffer), Route::NotFound);
    assert_eq!(status_line(Route::NotFound), "HTTP/1.1 404 NOT FOUND");
    assert_eq!(file_name(Route::NotFound), "404.html");
}

#[test]
fn empty_buffer_is_not_found() {
    let buffer: [u8; 0] = [];
    assert_eq!(route(&buffer), Route::NotFound);
}

#[test]
fn exact_request_line_is_enough() {
    assert_eq!(route(b"GET / HTTP/1.1\r\n"), Route::Root);
    assert_eq!(route(b"GET /sleep HTTP 1.1\r\n"), Route::Sleep);
}

#[test]
fn truncated_request_line_is_not_found() {
    assert_eq!(route(b"GET / HTTP/1.1"), Route::NotFound);
    assert_eq!(route(b"GET /slee"), Route::NotFound);
}

#[test]
fn request_lines_spell_the_expected_bytes() {
    assert_eq!(root_line_bytes(), b"GET / HTTP/1.1\r\n".to_vec());
    assert_eq!(sleep_line_bytes(), b"GET /sleep HTTP 1.1\r\n".to_vec());
}

#[test]
fn prefix_match_is_literal() {
    assert!(starts_with_bytes(b"abcdef", b"abc"));
    assert!(starts_with_bytes(b"abc", b"abc"));
    assert!(!starts_with_bytes(b"ab", b"abc"));
    assert!(!starts_with_bytes(b"abxdef", b"abc"));
    assert!(starts_with_bytes(b"anything", b""));
}
