use afire::{Header, HeaderParams, HeaderType, Headers};

#[test]
fn test_header_from_string() {
    let header = Header::from_string("Content-Type: text/html").unwrap();
    assert_eq!(header.name, HeaderType::ContentType);
    assert_eq!(header.value, "text/html");
    assert!(Header::from_string("no colon here").is_err());
}

#[test]
fn test_header_type_normalization() {
    assert_eq!(HeaderType::from_str("content-length"), HeaderType::ContentLength);
    assert_eq!(HeaderType::from_str("CONNECTION"), HeaderType::Connection);
    assert_eq!(
        HeaderType::from_str("X-Custom"),
        HeaderType::Custom("X-Custom".to_string())
    );
}

#[test]
fn test_headers_first_match() {
    let mut headers = Headers(Vec::new());
    assert!(!headers.has(&HeaderType::Host));
    headers.add(HeaderType::Host, "one");
    headers.add(HeaderType::Host, "two");
    assert!(headers.has(&HeaderType::Host));
    assert_eq!(headers.get(&HeaderType::Host), Some("one"));
    assert_eq!(headers.get(&HeaderType::Accept), None);
}

#[test]
fn test_headers_get_mut_updates() {
    let mut headers = Headers(Vec::new());
    headers.add_header(Header::new(HeaderType::Server, "a"));
    headers.get_mut(&HeaderType::Server).unwrap().push_str("b");
    assert_eq!(headers.get(&HeaderType::Server), Some("ab"));
    assert!(headers.get_mut(&HeaderType::Host).is_none());
}

#[test]
fn test_headers_get_header() {
    let mut headers = Headers(Vec::new());
    headers.add(HeaderType::Via, "proxy");
    let header = headers.get_header(&HeaderType::Via).unwrap();
    assert_eq!(header.value, "proxy");
    let header = headers.get_header_mut(&HeaderType::Via).unwrap();
    header.value = "other".to_string();
    assert_eq!(headers.get(&HeaderType::Via), Some("other"));
}

#[test]
fn test_header_params() {
    let header = Header::new(HeaderType::ContentType, "text/html; charset=utf-8; q=0.9");
    let params = header.params();
    assert_eq!(params.value, "text/html");
    assert!(params.has("charset"));
    assert_eq!(params.get("charset"), Some("utf-8"));
    assert_eq!(params.get("q"), Some("0.9"));
    assert_eq!(params.get("missing"), None);
}

#[test]
fn test_header_params_stop_at_malformed() {
    let params = HeaderParams::new("v; a=1; broken; b=2");
    assert_eq!(params.get("a"), Some("1"));
    assert_eq!(params.get("b"), None);
}

#[test]
fn test_headers_to_string_joins_lines() {
    let headers = vec![
        Header::new(HeaderType::Host, "example.com"),
        Header::new(HeaderType::ContentLength, "0"),
    ];
    assert_eq!(
        afire::header::headers_to_string(&headers),
        "Host: example.com\r\nContent-Length: 0"
    );
}

#[test]
fn test_request_header_lookup_is_case_insensitive() {
    let raw = b"GET / HTTP/1.1\r\nX-Token: abc\r\nHost: h\r\n\r\n".to_vec();
    let req = afire::codec::parse_request(&raw, "peer").unwrap();
    assert_eq!(req.header("x-token"), Some("abc".to_string()));
    assert_eq!(req.header("HOST"), Some("h".to_string()));
    assert_eq!(req.header("absent"), None);
}

#[test]
fn test_request_path_pram() {
    let raw = b"GET /greet/Sam HTTP/1.1\r\n\r\n".to_vec();
    let mut req = afire::codec::parse_request(&raw, "peer").unwrap();
    let (_, caps) = {
        let mut server: afire::Server<(), (), ()> = afire::Server::new([0, 0, 0, 0], 1);
        server.route(afire::Method::GET, "/greet/{name}", ());
        server.resolve(&req.method, &req.path).unwrap()
    };
    req.path_prams = caps;
    assert_eq!(req.path_pram("name"), Some("Sam".to_string()));
    assert_eq!(req.path_pram("other"), None);
}

#[test]
fn test_cmp_vec() {
    assert!(afire::cmp_vec(&vec![1, 2, 3], &vec![1, 2, 3]));
    assert!(!afire::cmp_vec(&vec![1, 2, 3], &vec![1, 2]));
    assert!(!afire::cmp_vec(&vec![1, 2, 3], &vec![1, 2, 4]));
}
