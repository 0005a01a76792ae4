use afire::{MiddleRequest, MiddleResponse, PostChain, PreChain, Request, Response};

fn request_for(path: &str) -> Request {
    let raw = format!("GET {path} HTTP/1.1\r\n\r\n").into_bytes();
    afire::codec::parse_request(&raw, "127.0.0.1:9999").unwrap()
}

// The two middleware are modelled as what the host program would call: a
// function from the request to an outcome.
type Hook = fn(&Request) -> MiddleRequest;

fn run_pre(hooks: &[Hook], req: Request) -> Result<Request, Response> {
    let mut chain = PreChain::start(hooks.len(), req);
    while let Some(i) = chain.current() {
        let outcome = hooks[i](&chain.req);
        chain.feed(outcome);
    }
    chain.finish()
}

#[test]
fn test_pre_runs_last_registered_first() {
    fn first_registered(req: &Request) -> MiddleRequest {
        let mut req = req.clone();
        req.path.push_str("/first");
        MiddleRequest::Replace(req)
    }
    fn second_registered(req: &Request) -> MiddleRequest {
        let mut req = req.clone();
        req.path.push_str("/second");
        MiddleRequest::Replace(req)
    }
    let hooks: Vec<Hook> = vec![first_registered, second_registered];
    let req = run_pre(&hooks, request_for("/base")).unwrap();
    // The last registered hook appended its marker first.
    assert_eq!(req.path, "/base/second/first");
}

#[test]
fn test_pre_send_short_circuits() {
    fn early(_req: &Request) -> MiddleRequest {
        MiddleRequest::Send(Response::new().status(403).text("stopped"))
    }
    fn never_runs(_req: &Request) -> MiddleRequest {
        panic!("an earlier Send must keep this hook from running");
    }
    // `early` is registered last, so it runs first and vetoes the rest.
    let hooks: Vec<Hook> = vec![never_runs, early];
    let res = run_pre(&hooks, request_for("/base")).unwrap_err();
    assert_eq!(res.status, 403);
    assert_eq!(res.data, b"stopped");
}

#[test]
fn test_pre_continue_keeps_request() {
    fn nop(_req: &Request) -> MiddleRequest {
        MiddleRequest::Continue
    }
    let hooks: Vec<Hook> = vec![nop, nop];
    let req = run_pre(&hooks, request_for("/kept")).unwrap();
    assert_eq!(req.path, "/kept");
}

#[test]
fn test_post_chain_replace_and_send() {
    let mut chain = PostChain::start(2, Response::new().status(200));
    assert_eq!(chain.current(), Some(1));
    chain.feed(MiddleResponse::Replace(Response::new().status(201)));
    assert_eq!(chain.current(), Some(0));
    chain.feed(MiddleResponse::Send(Response::new().status(202)));
    assert_eq!(chain.current(), None);
    let res = chain.finish();
    assert_eq!(res.status, 202);
}
