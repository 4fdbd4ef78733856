use mini_http::http::{HttpMethod, HttpParseError, HttpRequestLine, HttpVersion};

fn complete(text: &str) -> HttpRequestLine {
    match HttpRequestLine::parse(text) {
        Ok(Some(line)) => line,
        _ => panic!("expected a complete request line"),
    }
}

#[test]
fn empty_input_is_incomplete() {
    assert!(matches!(HttpRequestLine::parse(""), Ok(None)));
}

#[test]
fn line_without_crlf_is_incomplete() {
    assert!(matches!(HttpRequestLine::parse("GET / HTTP/1.1"), Ok(None)));
    assert!(matches!(HttpRequestLine::parse("GET / HTTP/1.1\n\r"), Ok(None)));
    assert!(matches!(HttpRequestLine::parse("GET / HTTP/1.1\r"), Ok(None)));
}

#[test]
fn two_tokens_are_malformed() {
    assert!(matches!(
        HttpRequestLine::parse("GET /\r\n"),
        Err(HttpParseError::MalformedRequestLine)
    ));
}

#[test]
fn four_tokens_are_malformed() {
    assert!(matches!(
        HttpRequestLine::parse("GET / HTTP/1.1 extra\r\n"),
        Err(HttpParseError::MalformedRequestLine)
    ));
}

#[test]
fn double_space_is_malformed() {
    assert!(matches!(
        HttpRequestLine::parse("GET  / HTTP/1.1\r\n"),
        Err(HttpParseError::MalformedRequestLine)
    ));
}

#[test]
fn empty_line_is_malformed() {
    assert!(matches!(
        HttpRequestLine::parse("\r\nGET / HTTP/1.1\r\n"),
        Err(HttpParseError::MalformedRequestLine)
    ));
}

#[test]
fn get_request_parses() {
    let line = complete("GET /hello HTTP/1.1\r\nHost: x\r\n\r\n");
    assert!(matches!(line.method(), HttpMethod::Get));
    assert_eq!(line.uri(), "/hello");
    assert!(matches!(line.version(), HttpVersion::Http1_1));
}

#[test]
fn other_tokens_are_kept_verbatim() {
    let line = complete("POST /a?b HTTP/0.9\r\n");
    match line.method() {
        HttpMethod::Other(m) => assert_eq!(m, "POST"),
        HttpMethod::Get => panic!("POST is not GET"),
    }
    assert_eq!(line.uri(), "/a?b");
    match line.version() {
        HttpVersion::Other(v) => assert_eq!(v, "HTTP/0.9"),
        HttpVersion::Http1_1 => panic!("HTTP/0.9 is not HTTP/1.1"),
    }
}

#[test]
fn empty_tokens_count() {
    let line = complete("  \r\n");
    match line.method() {
        HttpMethod::Other(m) => assert_eq!(m, ""),
        HttpMethod::Get => panic!("empty is not GET"),
    }
    assert_eq!(line.uri(), "");
}

#[test]
fn only_first_crlf_matters() {
    let line = complete("GET /lorem HTTP/1.1\r\nnot a request line at all\r\n");
    assert_eq!(line.uri(), "/lorem");
}

#[test]
fn tokens_round_trip_to_text() {
    let line = complete("GET / HTTP/1.1\r\n");
    assert_eq!(line.method().to_string(), "GET");
    assert_eq!(line.version().to_string(), "HTTP/1.1");
    let line = complete("get / http/1.1\r\n");
    assert_eq!(line.method().to_string(), "get");
    assert_eq!(line.version().to_string(), "http/1.1");
    let rebuilt = format!(
        "{} {} {}",
        line.method().to_string(),
        line.uri(),
        line.version().to_string()
    );
    assert_eq!(rebuilt, "get / http/1.1");
}

#[test]
fn version_copy_keeps_text() {
    let v = HttpVersion::Other(String::from("HTTP/2"));
    assert_eq!(v.copied().to_string(), "HTTP/2");
    assert!(matches!(HttpVersion::Http1_1.copied(), HttpVersion::Http1_1));
}
