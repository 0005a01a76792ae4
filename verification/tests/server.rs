use afire::server::parse_ip;
use afire::{Header, HeaderType, Method, Server};

type TestServer = Server<&'static str, (), ()>;

#[test]
fn test_server_defaults() {
    let server: TestServer = Server::new([127, 0, 0, 1], 8080);
    assert_eq!(server.port, 8080);
    assert_eq!(server.buff_size, 1024);
    assert!(server.routes.is_empty());
    assert!(server.middleware.is_empty());
    assert!(server.error_handler.is_none());
    assert!(server.keep_alive);
    assert!(server.run);
    assert_eq!(server.default_headers.len(), 1);
    assert_eq!(server.default_headers[0].name, HeaderType::Server);
    assert_eq!(
        server.default_headers[0].value,
        format!("afire/{}", afire::VERSION)
    );
}

#[test]
fn test_ip_string() {
    let server: TestServer = Server::new([127, 0, 0, 1], 8080);
    assert_eq!(server.ip_string(), "127.0.0.1");
    let server: TestServer = Server::new([10, 0, 255, 3], 1);
    assert_eq!(server.ip_string(), "10.0.255.3");
}

#[test]
fn test_parse_ip() {
    assert_eq!(parse_ip("localhost"), Some([127, 0, 0, 1]));
    assert_eq!(parse_ip("192.168.1.42"), Some([192, 168, 1, 42]));
    assert_eq!(parse_ip("1.2.3"), None);
    assert_eq!(parse_ip("1.2.3.4.5"), None);
    assert_eq!(parse_ip("1.2.3.256"), None);
    assert_eq!(parse_ip("a.b.c.d"), None);
}

#[test]
fn test_builders() {
    let mut server: TestServer = Server::new([0, 0, 0, 0], 80)
        .buffer(2048)
        .socket_timeout(5000)
        .default_header(Header::new(HeaderType::ContentType, "text/plain"));
    assert_eq!(server.buff_size, 2048);
    assert_eq!(server.socket_timeout_ms, Some(5000));
    assert_eq!(server.default_headers.len(), 2);
    server.set_run(false);
    assert!(!server.run);
    server.set_keep_alive(false);
    assert!(!server.keep_alive);
}

#[test]
fn test_registration_appends() {
    let mut server: TestServer = Server::new([0, 0, 0, 0], 80);
    server.route(Method::GET, "/a", "a");
    server.route_c(Method::POST, "/b", "b");
    server.all_c("c");
    assert_eq!(server.routes.len(), 3);
    assert_eq!(server.routes[0].method, Method::GET);
    assert_eq!(server.routes[1].method, Method::POST);
    assert_eq!(server.routes[2].method, Method::ANY);
}

#[test]
fn test_middleware_appends() {
    let mut server: Server<&'static str, &'static str, ()> = Server::new([0, 0, 0, 0], 80);
    server.middleware("m1");
    server.middleware("m2");
    assert_eq!(server.middleware, vec!["m1", "m2"]);
}

#[test]
fn test_error_handler_install() {
    let mut server: Server<(), (), &'static str> = Server::new([0, 0, 0, 0], 80);
    assert!(server.error_handler.is_none());
    server.error_handler("handler");
    assert_eq!(server.error_handler, Some("handler"));
    server.error_handler_c("handler2");
    assert_eq!(server.error_handler, Some("handler2"));
}
