use afire::{Method, Server};

type TestServer = Server<&'static str, (), ()>;

#[test]
fn test_later_route_wins() {
    let mut server: TestServer = Server::new([127, 0, 0, 1], 8080);
    server.route(Method::GET, "/page", "first");
    server.route(Method::GET, "/page", "second");
    let (idx, caps) = server
        .resolve(&Method::GET, &"/page".to_string())
        .unwrap();
    assert_eq!(server.routes[idx].handler, "second");
    assert!(caps.is_empty());
}

#[test]
fn test_catch_all_then_specific() {
    let mut server: TestServer = Server::new([127, 0, 0, 1], 8080);
    server.route(Method::ANY, "*", "handlerA");
    server.route(Method::GET, "/", "handlerB");
    let (get_idx, _) = server.resolve(&Method::GET, &"/".to_string()).unwrap();
    assert_eq!(server.routes[get_idx].handler, "handlerB");
    let (post_idx, _) = server.resolve(&Method::POST, &"/".to_string()).unwrap();
    assert_eq!(server.routes[post_idx].handler, "handlerA");
}

#[test]
fn test_no_route_resolves_to_none() {
    let mut server: TestServer = Server::new([127, 0, 0, 1], 8080);
    server.route(Method::GET, "/only", "h");
    assert!(server.resolve(&Method::GET, &"/other".to_string()).is_none());
    assert!(server.resolve(&Method::POST, &"/only".to_string()).is_none());
}

#[test]
fn test_resolve_captures_params() {
    let mut server: TestServer = Server::new([127, 0, 0, 1], 8080);
    server.route(Method::GET, "/greet/{name}", "greet");
    let (idx, caps) = server
        .resolve(&Method::GET, &"/greet/Sam".to_string())
        .unwrap();
    assert_eq!(server.routes[idx].handler, "greet");
    assert_eq!(caps, vec![("name".to_string(), "Sam".to_string())]);
}

#[test]
fn test_any_method_filter() {
    let mut server: TestServer = Server::new([127, 0, 0, 1], 8080);
    server.any("/everything", "any");
    for method in [Method::GET, Method::POST, Method::DELETE] {
        let (idx, _) = server.resolve(&method, &"/everything".to_string()).unwrap();
        assert_eq!(server.routes[idx].handler, "any");
    }
}

#[test]
fn test_all_registers_catch_all() {
    let mut server: TestServer = Server::new([127, 0, 0, 1], 8080);
    server.all("fallback");
    let (idx, _) = server
        .resolve(&Method::PUT, &"/deep/path/here".to_string())
        .unwrap();
    assert_eq!(server.routes[idx].handler, "fallback");
}
