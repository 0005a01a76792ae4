use afire::handle::{
    connection_action, error_response, keep_alive, not_found_response, panic_response, quick_err,
    ConnAction,
};
use afire::{
    Error, HandleError, Method, ParseError, Request, Response, ResponseFlag, Server, StreamError,
};

fn parse(text: &str) -> Request {
    afire::codec::parse_request(&text.as_bytes().to_vec(), "peer").unwrap()
}

#[test]
fn test_default_panic_response_contains_message() {
    let res = panic_response("boom");
    assert_eq!(res.status, 500);
    assert!(String::from_utf8(res.data.clone()).unwrap().contains("boom"));
}

#[test]
fn test_custom_error_handler_is_used_exactly() {
    type Handler = fn(Request, String) -> Response;
    let mut server: Server<(), (), Handler> = Server::new([127, 0, 0, 1], 8080);
    fn custom(_req: Request, msg: String) -> Response {
        Response::new().status(503).text(&format!("custom: {msg}"))
    }
    server.error_handler(custom);
    // The host program substitutes the installed handler for the built-in
    // panic response; with one installed its output is used verbatim.
    let req = parse("GET / HTTP/1.1\r\n\r\n");
    let res = match server.error_handler {
        Some(handler) => handler(req, "boom".to_string()),
        None => panic_response("boom"),
    };
    assert_eq!(res.status, 503);
    assert_eq!(res.data, b"custom: boom");
}

#[test]
fn test_panic_error_maps_to_500() {
    let err = Error::Handle(Box::new(HandleError::Panic(
        Box::new(Err(Error::NoResponse)),
        "boom".to_string(),
    )));
    let res = error_response(&err);
    assert_eq!(res.status, 500);
    assert!(String::from_utf8(res.data).unwrap().contains("boom"));
}

#[test]
fn test_malformed_request_maps_to_400() {
    let raw = b"GET / HTTP/1.1".to_vec();
    let err = afire::codec::parse_request(&raw, "peer").unwrap_err();
    match &err {
        Error::Parse(ParseError::NoSeparator) => {}
        other => panic!("expected NoSeparator, got {other:?}"),
    }
    let res = error_response(&err);
    assert_eq!(res.status, 400);
    assert_eq!(res.data, b"No separator");
}

#[test]
fn test_error_response_variants() {
    let res = error_response(&Error::Stream(StreamError::UnexpectedEof));
    assert_eq!(res.status, 400);
    assert_eq!(res.data, b"Unexpected EOF");

    let res = error_response(&Error::Parse(ParseError::InvalidQuery));
    assert_eq!(res.status, 400);
    assert_eq!(res.data, b"Invalid query");

    let res = error_response(&Error::Handle(Box::new(HandleError::NotFound(
        Method::GET,
        "/missing".to_string(),
    ))));
    assert_eq!(res.status, 404);
    assert_eq!(res.data, b"Cannot GET /missing");

    let res = error_response(&Error::Io("disk on fire".to_string()));
    assert_eq!(res.status, 500);
    assert_eq!(res.data, b"disk on fire");
    assert!(res.headers.is_empty());
}

#[test]
fn test_not_found_response_text() {
    let res = not_found_response(&Method::POST, "/nowhere");
    assert_eq!(res.status, 404);
    assert_eq!(res.data, b"Cannot POST /nowhere");
}

#[test]
fn test_quick_err_shape() {
    let res = quick_err("oops", 500);
    assert_eq!(res.status, 500);
    assert_eq!(res.data, b"oops");
    assert_eq!(res.headers[0].value, "text/plain");
}

#[test]
fn test_keep_alive_negotiation() {
    assert!(keep_alive(&parse("GET / HTTP/1.1\r\n\r\n")));
    assert!(keep_alive(&parse("GET / HTTP/1.1\r\nConnection: keep-alive\r\n\r\n")));
    assert!(!keep_alive(&parse("GET / HTTP/1.1\r\nConnection: close\r\n\r\n")));
    assert!(!keep_alive(&parse("GET / HTTP/1.1\r\nConnection: CLOSE\r\n\r\n")));
}

#[test]
fn test_connection_decision() {
    // Two sequential requests without `Connection: close` both keep the
    // socket open; a `Connection: close` request closes it after the
    // response.
    let first = parse("GET /a HTTP/1.1\r\n\r\n");
    let action = connection_action(ResponseFlag::Normal, keep_alive(&first), true);
    assert_eq!(action, ConnAction::KeepOpen);
    let second = parse("GET /b HTTP/1.1\r\n\r\n");
    let action = connection_action(ResponseFlag::Normal, keep_alive(&second), true);
    assert_eq!(action, ConnAction::KeepOpen);
    let last = parse("GET /c HTTP/1.1\r\nConnection: close\r\n\r\n");
    let action = connection_action(ResponseFlag::Normal, keep_alive(&last), true);
    assert_eq!(action, ConnAction::Close);

    assert_eq!(
        connection_action(ResponseFlag::End, true, true),
        ConnAction::End
    );
    assert_eq!(
        connection_action(ResponseFlag::Close, true, true),
        ConnAction::Close
    );
    assert_eq!(
        connection_action(ResponseFlag::Normal, true, false),
        ConnAction::Close
    );
}
