use mini_http::http::{HttpRequestLine, HttpVersion};
use mini_http::routes::{joke, joke_page, route_hello, route_joke, route_lorem, route_root, JOKE_COUNT};
use mini_http::server::{handle_request, reply_to_read, respond, NOT_FOUND_PAGE, READ_CAPACITY};

#[test]
fn root_is_served() {
    let reply = respond("GET / HTTP/1.1\r\n\r\n");
    assert_eq!(reply.response.status_code(), 200);
    let body = reply.response.content().clone().unwrap();
    assert!(!body.is_empty());
    assert_eq!(body, route_root());
    let mut wire = b"HTTP/1.1 200\r\n\r\n".to_vec();
    wire.extend_from_slice(&route_root());
    assert_eq!(reply.wire, wire);
}

#[test]
fn missing_page_is_not_found() {
    let reply = respond("GET /missing HTTP/1.1\r\n\r\n");
    assert_eq!(reply.response.status_code(), 404);
    assert_eq!(
        reply.response.content(),
        &Some(b"<html><body>404 NOT FOUND</body></html>".to_vec())
    );
    assert_eq!(NOT_FOUND_PAGE, "<html><body>404 NOT FOUND</body></html>");
}

#[test]
fn other_method_is_not_implemented() {
    let reply = respond("POST / HTTP/1.1\r\n\r\n");
    assert_eq!(reply.response.status_code(), 501);
    assert!(reply.response.content().is_none());
    assert_eq!(reply.wire, b"HTTP/1.1 501\r\n\r\n".to_vec());
}

#[test]
fn other_version_is_not_supported() {
    let reply = respond("GET / HTTP/0.9\r\n\r\n");
    assert_eq!(reply.response.status_code(), 505);
    assert!(reply.response.content().is_none());
    assert_eq!(reply.wire, b"HTTP/0.9 505\r\n\r\n".to_vec());
}

#[test]
fn version_is_checked_before_method() {
    let reply = respond("POST / HTTP/2\r\n");
    assert_eq!(reply.response.status_code(), 505);
}

#[test]
fn empty_read_sends_nothing() {
    assert!(reply_to_read(&[]).is_none());
}

#[test]
fn full_buffer_without_crlf_is_bad_request() {
    let data = vec![b'a'; READ_CAPACITY];
    let reply = reply_to_read(&data).unwrap();
    assert_eq!(reply.response.status_code(), 400);
    assert!(reply.response.content().is_none());
    assert!(reply.request.is_none());
    assert_eq!(reply.wire, b"HTTP/1.1 400\r\n\r\n".to_vec());
}

#[test]
fn malformed_line_is_bad_request() {
    let reply = reply_to_read(b"GET /\r\n\r\n").unwrap();
    assert_eq!(reply.response.status_code(), 400);
    assert!(reply.response.content().is_none());
    assert!(reply.request.is_none());
}

#[test]
fn parsed_request_is_reported() {
    let reply = reply_to_read(b"GET /hello HTTP/1.1\r\n\r\n").unwrap();
    let line = reply.request.unwrap();
    assert_eq!(line.uri(), "/hello");
    assert_eq!(line.method().to_string(), "GET");
    assert_eq!(reply.response.status_code(), 200);
    assert_eq!(reply.response.content(), &Some(route_hello()));
}

#[test]
fn invalid_utf8_is_replaced() {
    let reply = reply_to_read(b"GET /\xff HTTP/1.1\r\n\r\n").unwrap();
    let line = reply.request.unwrap();
    assert_eq!(line.uri(), "/\u{FFFD}");
    assert_eq!(reply.response.status_code(), 404);
}

#[test]
fn lorem_and_hello_pages() {
    assert_eq!(route_hello(), b"<html><body>Hello world!</body></html>".to_vec());
    let lorem = String::from_utf8(route_lorem()).unwrap();
    assert!(lorem.contains("Lorem ipsum dolor sit amet"));
    let reply = respond("GET /lorem HTTP/1.1\r\n");
    assert_eq!(reply.response.content(), &Some(route_lorem()));
}

#[test]
fn joke_page_holds_joke() {
    assert_eq!(JOKE_COUNT, 15);
    let page = String::from_utf8(joke_page(13)).unwrap();
    assert_eq!(joke(13), "HTTP jokes are rarely better than OK");
    assert_eq!(
        page,
        "<html><body>\n    <strong>HTTP jokes are rarely better than OK</strong>\n    </br>\n    </br>\n    Credits: http://attrition.org/misc/ee/protolol.txt\n    </body></html>"
    );
}

#[test]
fn random_joke_is_one_of_the_jokes() {
    for _ in 0..20 {
        let page = route_joke();
        assert!((0..JOKE_COUNT).any(|i| joke_page(i) == page));
    }
    let reply = respond("GET /joke HTTP/1.1\r\n\r\n");
    assert_eq!(reply.response.status_code(), 200);
    let body = reply.response.content().clone().unwrap();
    assert!((0..JOKE_COUNT).any(|i| joke_page(i) == body));
}

#[test]
fn handle_request_on_parsed_line() {
    let line = match HttpRequestLine::parse("GET /nowhere HTTP/1.1\r\n") {
        Ok(Some(line)) => line,
        _ => panic!("expected a complete request line"),
    };
    let response = handle_request(&line);
    assert_eq!(response.status_code(), 404);
    let line = match HttpRequestLine::parse("DELETE /nowhere HTTP/1.1\r\n") {
        Ok(Some(line)) => line,
        _ => panic!("expected a complete request line"),
    };
    let response = handle_request(&line);
    assert_eq!(response.status_code(), 501);
    assert_eq!(
        response.to_bytes(),
        mini_http::http::HttpResponse::new(HttpVersion::Http1_1, 501, None).to_bytes()
    );
}
