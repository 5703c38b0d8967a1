use hello::http::{
    arrival_message, failure_message, line_of, response, route, Page, Plan, ReadError,
    RequestHead, Route,
};

#[test]
fn known_requests_get_the_hello_page() {
    assert_eq!(route("GET / HTTP/1.1"), Route { page: Page::Hello, delay: 0 });
    assert_eq!(route("GET /sleep HTTP/1.1"), Route { page: Page::Hello, delay: 5 });
}

#[test]
fn error_lines_get_their_pages() {
    assert_eq!(route("400"), Route { page: Page::BadRequest, delay: 0 });
    assert_eq!(route("500"), Route { page: Page::ServerError, delay: 0 });
}

#[test]
fn other_lines_are_not_found() {
    for line in ["", "GET /missing HTTP/1.1", "GET / HTTP/1.0", "get / http/1.1", "400\r\n", "500\r\n", "GET / HTTP/1.1 "] {
        assert_eq!(route(line), Route { page: Page::NotFound, delay: 0 });
    }
}

#[test]
fn pages_have_paths_and_status_lines() {
    assert_eq!(Page::Hello.path(), "contents/hello.html");
    assert_eq!(Page::BadRequest.path(), "contents/400.html");
    assert_eq!(Page::NotFound.path(), "contents/404.html");
    assert_eq!(Page::ServerError.path(), "contents/500.html");
    assert_eq!(Page::Hello.status_line(), "HTTP/1.1 200 OK");
    assert_eq!(Page::BadRequest.status_line(), "HTTP/1.1 400 Bad Request");
    assert_eq!(Page::NotFound.status_line(), "HTTP/1.1 404 Not Found");
    assert_eq!(Page::ServerError.status_line(), "HTTP/1.1 500 Internal Server Error");
}

#[test]
fn pages_are_found_by_their_paths() {
    for page in [Page::Hello, Page::BadRequest, Page::NotFound, Page::ServerError] {
        assert_eq!(Page::from_path(page.path()), Some(page));
    }
    assert_eq!(Page::from_path("contents/index.html"), None);
    assert_eq!(Page::from_path("hello.html"), None);
    assert_eq!(Page::from_path(""), None);
}

#[test]
fn failed_reads_become_error_lines() {
    assert_eq!(line_of(Ok(String::from("Host: localhost"))), "Host: localhost");
    assert_eq!(line_of(Ok(String::new())), "");
    assert_eq!(line_of(Err(ReadError::InvalidInput)), "400\r\n");
    assert_eq!(line_of(Err(ReadError::InvalidData)), "400\r\n");
    assert_eq!(line_of(Err(ReadError::Other)), "500\r\n");
}

#[test]
fn head_ends_at_the_first_empty_line() {
    let mut head = RequestHead::new();
    assert!(!head.is_complete());
    assert!(head.feed(Ok(String::from("GET /sleep HTTP/1.1"))));
    assert!(head.feed(Ok(String::from("Host: localhost"))));
    assert!(head.feed(Err(ReadError::InvalidData)));
    assert!(!head.feed(Ok(String::new())));
    assert!(head.is_complete());
    // What comes after the empty line is no part of the head.
    assert!(!head.feed(Ok(String::from("body"))));
    assert_eq!(head.request_line(), Some("GET /sleep HTTP/1.1"));
    assert_eq!(head.listing(), "GET /sleep HTTP/1.1\nHost: localhost\n400\r\n\n");
    assert_eq!(head.plan(), Plan::Serve(Route { page: Page::Hello, delay: 5 }));
}

#[test]
fn request_without_lines_is_blank() {
    let mut head = RequestHead::new();
    assert_eq!(head.plan(), Plan::Blank);
    assert_eq!(head.request_line(), None);
    assert_eq!(head.listing(), "");
    assert!(!head.feed(Ok(String::new())));
    assert_eq!(head.plan(), Plan::Blank);
    assert_eq!(head.request_line(), None);
}

#[test]
fn failed_first_read_is_not_found() {
    let mut head = RequestHead::new();
    assert!(head.feed(Err(ReadError::Other)));
    assert_eq!(head.request_line(), Some("500\r\n"));
    assert_eq!(head.plan(), Plan::Serve(Route { page: Page::NotFound, delay: 0 }));
}

#[test]
fn response_frames_status_length_and_body() {
    assert_eq!(
        response("HTTP/1.1 200 OK", "hello"),
        b"HTTP/1.1 200 OK\r\nContent-Length: 5\r\n\r\nhello".to_vec()
    );
    assert_eq!(
        response("HTTP/1.1 404 Not Found", ""),
        b"HTTP/1.1 404 Not Found\r\nContent-Length: 0\r\n\r\n".to_vec()
    );
}

#[test]
fn response_counts_the_body_in_bytes() {
    let body = "gr\u{fc}\u{df}e\n";
    assert_eq!(body.chars().count(), 6);
    assert_eq!(
        response("HTTP/1.1 200 OK", body),
        "HTTP/1.1 200 OK\r\nContent-Length: 8\r\n\r\ngr\u{fc}\u{df}e\n".as_bytes().to_vec()
    );
    let long = "x".repeat(1234);
    let framed = response(Page::ServerError.status_line(), &long);
    let expected = format!("HTTP/1.1 500 Internal Server Error\r\nContent-Length: 1234\r\n\r\n{long}");
    assert_eq!(framed, expected.into_bytes());
}

#[test]
fn arrival_names_peer_and_request() {
    assert_eq!(
        arrival_message("127.0.0.1:50314", "GET / HTTP/1.1"),
        "from 127.0.0.1:50314: GET / HTTP/1.1"
    );
}

#[test]
fn failure_names_peer_cause_and_head() {
    let mut head = RequestHead::new();
    head.feed(Ok(String::from("GET / HTTP/1.1")));
    head.feed(Ok(String::from("Accept: */*")));
    head.feed(Ok(String::new()));
    assert_eq!(
        failure_message("127.0.0.1:50314", "broken pipe", &head),
        "Could not succesfully respond to 127.0.0.1:50314: broken pipe\nGET / HTTP/1.1\nAccept: */*\n"
    );
    assert_eq!(
        failure_message("peer", "cause", &RequestHead::new()),
        "Could not succesfully respond to peer: cause\n"
    );
}
