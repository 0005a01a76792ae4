use afire::codec::{content_length, parse_request, response_bytes};
use afire::{Error, Header, HeaderType, Headers, Method, ParseError, Response};

fn parse(text: &str) -> Result<afire::Request, Error> {
    parse_request(&text.as_bytes().to_vec(), "127.0.0.1:1234")
}

fn parse_err(text: &str) -> ParseError {
    match parse(text) {
        Err(Error::Parse(e)) => e,
        other => panic!("expected a parse error, got {other:?}"),
    }
}

#[test]
fn test_parse_full_request() {
    let req = parse(
        "POST /submit?name=Sam&x=%41 HTTP/1.1\r\nHost: example.com\r\nContent-Length: 5\r\n\r\nhello",
    )
    .unwrap();
    assert_eq!(req.method, Method::POST);
    assert_eq!(req.path, "/submit");
    assert_eq!(req.query.get("name"), Some("Sam"));
    assert_eq!(req.query.get("x"), Some("A"));
    assert_eq!(req.headers.len(), 2);
    assert_eq!(req.headers[0].name, HeaderType::Host);
    assert_eq!(req.headers[0].value, "example.com");
    assert_eq!(req.body, b"hello");
    assert_eq!(req.body_string(), Some("hello".to_string()));
    assert_eq!(req.address, "127.0.0.1:1234");
    assert!(req.path_prams.is_empty());
}

#[test]
fn test_parse_no_separator() {
    assert_eq!(parse_err("GET / HTTP/1.1\r\nHost: x"), ParseError::NoSeparator);
}

#[test]
fn test_parse_missing_pieces() {
    assert_eq!(parse_err("\r\n\r\n"), ParseError::NoRequestLine);
    assert_eq!(parse_err("GET\r\n\r\n"), ParseError::NoPath);
    assert_eq!(parse_err("GET /\r\n\r\n"), ParseError::NoVersion);
    assert_eq!(parse_err("YEET / HTTP/1.1\r\n\r\n"), ParseError::InvalidMethod);
    assert_eq!(
        parse_err("GET /a?k=%zz HTTP/1.1\r\n\r\n"),
        ParseError::InvalidQuery
    );
    assert_eq!(
        parse_err("GET / HTTP/1.1\r\nbad header line\r\n\r\n"),
        ParseError::InvalidHeader
    );
    assert_eq!(
        parse_err("GET / HTTP/1.1 extra\r\n\r\n"),
        ParseError::NoRequestLine
    );
}

#[test]
fn test_parse_header_normalization() {
    let req = parse("GET / HTTP/1.1\r\ncontent-TYPE:  text/html \r\nX-Thing: 7\r\n\r\n").unwrap();
    assert_eq!(req.headers[0].name, HeaderType::ContentType);
    assert_eq!(req.headers[0].value, "text/html");
    assert_eq!(req.headers[1].name, HeaderType::Custom("X-Thing".to_string()));
    assert_eq!(req.headers[1].value, "7");
}

#[test]
fn test_content_length_header() {
    let req = parse("GET / HTTP/1.1\r\nContent-Length: 42\r\n\r\n").unwrap();
    assert_eq!(content_length(&Headers(req.headers)), Some(42));
    let req = parse("GET / HTTP/1.1\r\nHost: x\r\n\r\n").unwrap();
    assert_eq!(content_length(&Headers(req.headers)), None);
    let req = parse("GET / HTTP/1.1\r\nContent-Length: nope\r\n\r\n").unwrap();
    assert_eq!(content_length(&Headers(req.headers)), Some(0));
    let req = parse("GET / HTTP/1.1\r\nContent-Length: 99999999999999999999999\r\n\r\n").unwrap();
    assert_eq!(content_length(&Headers(req.headers)), Some(0));
}

#[test]
fn test_response_bytes_framing() {
    let res = Response::new()
        .status(200)
        .text("hi")
        .header(Header::new(HeaderType::ContentType, "text/plain"));
    let defaults = vec![Header::new(HeaderType::Server, "afire")];
    let bytes = response_bytes(&res, &defaults);
    let expected = "HTTP/1.1 200 OK\r\nContent-Type: text/plain\r\nServer: afire\r\nContent-Length: 2\r\n\r\nhi";
    assert_eq!(String::from_utf8(bytes).unwrap(), expected);
}

#[test]
fn test_response_bytes_custom_reason_and_empty_headers() {
    let res = Response::new().status(599).reason("Odd");
    let bytes = response_bytes(&res, &Vec::new());
    assert_eq!(
        String::from_utf8(bytes).unwrap(),
        "HTTP/1.1 599 Odd\r\nContent-Length: 0\r\n\r\n"
    );
}

#[test]
fn test_response_reason_phrase_fallback() {
    let res = Response::new().status(404);
    let bytes = response_bytes(&res, &Vec::new());
    let text = String::from_utf8(bytes).unwrap();
    assert!(text.starts_with("HTTP/1.1 404 Not Found\r\n"));
    assert_eq!(afire::reason_phrase(404), "Not Found");
    assert_eq!(afire::reason_phrase(418), "I'm a Teapot");
    assert_eq!(afire::reason_phrase(200), "OK");
}

#[test]
fn test_parse_rejects_non_utf8() {
    let mut raw = b"GET / HTTP/1.1\r\n\r\n".to_vec();
    raw.push(0xff);
    match parse_request(&raw, "p") {
        Err(Error::Io(_)) => {}
        other => panic!("expected an io error, got {other:?}"),
    }
}

#[test]
fn test_body_string_rejects_non_utf8() {
    let mut req = parse("GET / HTTP/1.1\r\n\r\nok").unwrap();
    assert_eq!(req.body_string(), Some("ok".to_string()));
    req.body = vec![0xff, 0xfe];
    assert_eq!(req.body_string(), None);
}
