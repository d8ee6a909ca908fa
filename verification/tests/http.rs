use surff::http::{response, route, starts_with, Page, Route, Status};

#[test]
fn front_page_request_is_answered_at_once() {
    let request = b"GET / HTTP/1.1\r\nHost: localhost\r\n\r\n";
    assert_eq!(
        route(request),
        Route { status: Status::Found, page: Page::Hello, delay_secs: 0 }
    );
}

#[test]
fn slow_page_request_is_held_back_five_seconds() {
    let request = b"GET /sleep HTTP/1.1\r\nHost: localhost\r\n\r\n";
    assert_eq!(
        route(request),
        Route { status: Status::Found, page: Page::Hello, delay_secs: 5 }
    );
}

#[test]
fn other_requests_are_not_found() {
    let expected = Route { status: Status::NotFound, page: Page::NotFound, delay_secs: 0 };
    assert_eq!(route(b"GET /other HTTP/1.1\r\n"), expected);
    assert_eq!(route(b"POST / HTTP/1.1\r\n"), expected);
    assert_eq!(route(b"GET / HTTP/1.0\r\n"), expected);
    assert_eq!(route(b" GET / HTTP/1.1\r\n"), expected);
    assert_eq!(route(b"GET / HTTP/1.1\r"), expected);
    assert_eq!(route(b"GET / HTTP/1.1"), expected);
    assert_eq!(route(b""), expected);
}

#[test]
fn request_in_a_zero_filled_buffer_is_routed_by_its_first_line() {
    let mut buffer = [0u8; 1024];
    let line = b"GET /sleep HTTP/1.1\r\n";
    buffer[..line.len()].copy_from_slice(line);
    assert_eq!(route(&buffer).delay_secs, 5);
    let empty = [0u8; 1024];
    assert_eq!(route(&empty).status, Status::NotFound);
}

#[test]
fn request_that_is_exactly_the_first_line_matches() {
    assert_eq!(route(b"GET / HTTP/1.1\r\n").status, Status::Found);
    assert_eq!(route(b"GET /sleep HTTP/1.1\r\n").delay_secs, 5);
}

#[test]
fn starts_with_compares_the_leading_bytes() {
    assert!(starts_with(b"abcdef", b"abc"));
    assert!(starts_with(b"abc", b"abc"));
    assert!(starts_with(b"abc", b""));
    assert!(starts_with(b"", b""));
    assert!(!starts_with(b"ab", b"abc"));
    assert!(!starts_with(b"", b"a"));
    assert!(!starts_with(b"abd", b"abc"));
    assert!(!starts_with(b"xbc", b"abc"));
}

#[test]
fn status_lines_end_the_head() {
    assert_eq!(Status::Found.line(), "HTTP/1.1 200 OK\r\n\r\n");
    assert_eq!(Status::NotFound.line(), "HTTP/1.1 404 NOT FOUND\r\n\r\n");
}

#[test]
fn pages_name_their_files() {
    assert_eq!(Page::Hello.file_name(), "hello.html");
    assert_eq!(Page::NotFound.file_name(), "404.html");
}

#[test]
fn response_is_status_line_then_contents() {
    assert_eq!(
        response(Status::Found, b"<h1>Hello!</h1>"),
        b"HTTP/1.1 200 OK\r\n\r\n<h1>Hello!</h1>".to_vec()
    );
    assert_eq!(
        response(Status::NotFound, b"<h1>Oops!</h1>\n"),
        b"HTTP/1.1 404 NOT FOUND\r\n\r\n<h1>Oops!</h1>\n".to_vec()
    );
}

#[test]
fn response_with_empty_contents_is_the_status_line() {
    assert_eq!(response(Status::Found, b""), b"HTTP/1.1 200 OK\r\n\r\n".to_vec());
}

#[test]
fn response_follows_the_route() {
    let chosen = route(b"GET /nothing HTTP/1.1\r\n");
    let bytes = response(chosen.status, b"gone");
    assert_eq!(bytes, b"HTTP/1.1 404 NOT FOUND\r\n\r\ngone".to_vec());
}
