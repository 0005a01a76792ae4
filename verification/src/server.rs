//! The server configuration object: address, buffering and timeout
//! settings, default headers, the route table, the middleware list and
//! the error handler.
//!
//! The engine never invokes a handler or middleware itself — the host
//! program does, inside its own panic boundary — so the server is generic
//! over the handler value `H`, the middleware value `M` and the error
//! handler value `E` it stores for the host program.

use vstd::prelude::*;

use crate::header::{Header, HeaderType};
use crate::method::Method;
use crate::path::Path;
use crate::routing::Route;
use crate::text;

verus! {

/// A server under configuration: built once, then served by the host
/// program's accept loop.  Routes and middleware are append-only.
pub struct Server<H, M, E> {
    /// Port to listen on.
    pub port: u16,
    /// Address to listen on.
    pub ip: [u8; 4],
    /// Initial read buffer size; it must be large enough to hold the
    /// request head, so that the declared content length can be read.
    pub buff_size: usize,
    /// Registered routes, in registration order.
    pub routes: Vec<Route<H>>,
    /// Registered middleware, in registration order; hooks run in reverse.
    pub middleware: Vec<M>,
    /// The custom error handler, if one is installed.
    pub error_handler: Option<E>,
    /// Headers added to every response.
    pub default_headers: Vec<Header>,
    /// Socket read and write timeout, in milliseconds.
    pub socket_timeout_ms: Option<u64>,
    /// Whether the server honors keep-alive at all.
    pub keep_alive: bool,
    /// Whether the accept loop runs; turned off only by tests.
    pub run: bool,
}

/// The dotted decimal notation of an address.
pub open spec fn spec_ip_text(ip: Seq<u8>) -> Seq<char> {
    text::spec_decimal(ip[0] as int) + "."@ + text::spec_decimal(ip[1] as int) + "."@
        + text::spec_decimal(ip[2] as int) + "."@ + text::spec_decimal(ip[3] as int)
}

/// One octet of a dotted decimal address: a nonempty run of digits whose
/// value fits in a byte.
pub open spec fn spec_octet_ok(p: Seq<char>) -> bool {
    p.len() > 0 && text::all_digits(p) && text::spec_dec_value(p) <= 255
}

/// The address an address string names: `localhost` is the loopback
/// address, and anything else must be four dot-separated decimal octets.
pub open spec fn spec_parse_ip(s: Seq<char>) -> Option<Seq<int>> {
    let t = if s == "localhost"@ {
        "127.0.0.1"@
    } else {
        s
    };
    let parts = text::spec_split(t, "."@);
    if parts.len() == 4 && spec_octet_ok(parts[0]) && spec_octet_ok(parts[1]) && spec_octet_ok(
        parts[2],
    ) && spec_octet_ok(parts[3]) {
        Some(parts.map_values(|p: Seq<char>| text::spec_dec_value(p)))
    } else {
        None
    }
}

/// Reads an address from a string: `localhost` or dotted decimal.
pub fn parse_ip(s: &str) -> (r: Option<[u8; 4]>)
    ensures
        match r {
            Some(ip) => spec_parse_ip(s@) matches Some(q) && ip@.map_values(|b: u8| b as int)
                == q,
            None => spec_parse_ip(s@) is None,
        },
{
    let chars = if text::str_eq(s, "localhost") {
        text::chars_of("127.0.0.1")
    } else {
        text::chars_of(s)
    };
    proof {
        assert(chars@ == (if s@ == "localhost"@ {
            "127.0.0.1"@
        } else {
            s@
        }));
    }
    let dot: Vec<char> = vec!['.'];
    proof {
        reveal_strlit(".");
        assert(dot@ =~= "."@);
    }
    let parts = text::split_on(&chars, &dot);
    let ghost t = chars@;
    let ghost gparts = text::spec_split(t, "."@);
    if parts.len() != 4 {
        return None;
    }
    proof {
        text::lemma_deep_index(&parts, 0int);
        text::lemma_deep_index(&parts, 1int);
        text::lemma_deep_index(&parts, 2int);
        text::lemma_deep_index(&parts, 3int);
    }
    let a = match octet(&parts[0]) {
        Option::Some(v) => v,
        Option::None => {
            proof {
                assert(!spec_octet_ok(gparts[0]));
            }
            return None;
        },
    };
    let b = match octet(&parts[1]) {
        Option::Some(v) => v,
        Option::None => {
            proof {
                assert(!spec_octet_ok(gparts[1]));
            }
            return None;
        },
    };
    let c = match octet(&parts[2]) {
        Option::Some(v) => v,
        Option::None => {
            proof {
                assert(!spec_octet_ok(gparts[2]));
            }
            return None;
        },
    };
    let d = match octet(&parts[3]) {
        Option::Some(v) => v,
        Option::None => {
            proof {
                assert(!spec_octet_ok(gparts[3]));
            }
            return None;
        },
    };
    let ip: [u8; 4] = [a, b, c, d];
    proof {
        let q = gparts.map_values(|p: Seq<char>| text::spec_dec_value(p));
        assert(ip@.map_values(|x: u8| x as int) =~= q);
    }
    Some(ip)
}

/// Reads one octet of a dotted decimal address.
fn octet(v: &Vec<char>) -> (r: Option<u8>)
    ensures
        match r {
            Some(n) => v@.len() > 0 && text::all_digits(v@) && text::spec_dec_value(v@) == n,
            None => v@.len() == 0 || !text::all_digits(v@) || text::spec_dec_value(v@) > 255,
        },
{
    match text::parse_decimal(v) {
        Option::None => None,
        Option::Some(n) => if n <= 255 {
            Some(n as u8)
        } else {
            None
        },
    }
}

impl<H, M, E> Server<H, M, E> {
    /// A fresh server on the given address and port: empty route table,
    /// no middleware, no custom error handler, a 1024-byte read buffer,
    /// no timeout, keep-alive honored, and a default `Server` header
    /// advertising `afire/` and the engine's version.
    pub fn new(ip: [u8; 4], port: u16) -> (r: Server<H, M, E>)
        ensures
            r.port == port,
            r.ip@ == ip@,
            r.buff_size == 1024,
            r.routes@.len() == 0,
            r.middleware@.len() == 0,
            r.error_handler is None,
            r.default_headers@.len() == 1,
            r.default_headers@[0].name == HeaderType::Server,
            r.default_headers@[0].value@ == "afire/"@ + crate::VERSION@,
            r.socket_timeout_ms is None,
            r.keep_alive,
            r.run,
    {
        let mut value = String::new();
        value.append("afire/");
        value.append(crate::VERSION);
        let mut default_headers: Vec<Header> = Vec::new();
        default_headers.push(Header::new(HeaderType::Server, value.as_str()));
        Server {
            port,
            ip,
            buff_size: 1024,
            routes: Vec::new(),
            middleware: Vec::new(),
            error_handler: Option::None,
            default_headers,
            socket_timeout_ms: Option::None,
            keep_alive: true,
            run: true,
        }
    }

    /// The address the server listens on, in dotted decimal.
    pub fn ip_string(&self) -> (r: String)
        ensures
            r@ == spec_ip_text(self.ip@),
    {
        let mut out = String::new();
        let o0 = text::u64_to_string(self.ip[0] as u64);
        let o1 = text::u64_to_string(self.ip[1] as u64);
        let o2 = text::u64_to_string(self.ip[2] as u64);
        let o3 = text::u64_to_string(self.ip[3] as u64);
        out.append(o0.as_str());
        out.append(".");
        out.append(o1.as_str());
        out.append(".");
        out.append(o2.as_str());
        out.append(".");
        out.append(o3.as_str());
        proof {
            assert(out@ =~= spec_ip_text(self.ip@));
        }
        out
    }

    /// Sets the initial read buffer size.
    pub fn buffer(self, buf: usize) -> (r: Server<H, M, E>)
        ensures
            r == (Server { buff_size: buf, ..self }),
    {
        Server { buff_size: buf, ..self }
    }

    /// Adds a header that every response will carry.
    pub fn default_header(self, header: Header) -> (r: Server<H, M, E>)
        ensures
            r.default_headers@ == self.default_headers@.push(header),
            r.port == self.port && r.ip == self.ip && r.buff_size == self.buff_size && r.routes
                == self.routes && r.middleware == self.middleware && r.error_handler
                == self.error_handler && r.socket_timeout_ms == self.socket_timeout_ms
                && r.keep_alive == self.keep_alive && r.run == self.run,
    {
        let mut headers = self.default_headers;
        headers.push(header);
        Server { default_headers: headers, ..self }
    }

    /// Sets the socket read and write timeout, in milliseconds.
    pub fn socket_timeout(self, timeout_ms: u64) -> (r: Server<H, M, E>)
        ensures
            r == (Server { socket_timeout_ms: Some(timeout_ms), ..self }),
    {
        Server { socket_timeout_ms: Option::Some(timeout_ms), ..self }
    }

    /// Keeps the accept loop from running; only used by tests.
    pub fn set_run(&mut self, run: bool)
        ensures
            *final(self) == (Server { run, ..*old(self) }),
    {
        self.run = run;
    }

    /// Enables or disables keep-alive for the whole server.
    pub fn set_keep_alive(&mut self, keep_alive: bool)
        ensures
            *final(self) == (Server { keep_alive, ..*old(self) }),
    {
        self.keep_alive = keep_alive;
    }

    /// Appends a middleware; the host program runs hooks in reverse
    /// registration order, as [`crate::middleware::PreChain`] dictates.
    pub fn middleware(&mut self, handler: M)
        ensures
            final(self).middleware@ == old(self).middleware@.push(handler),
            final(self).port == old(self).port && final(self).ip == old(self).ip && final(self).buff_size == old(self).buff_size && final(self).routes == old(self).routes && final(self).error_handler == old(self).error_handler && final(self).default_headers == old(self).default_headers && final(self).socket_timeout_ms == old(self).socket_timeout_ms
                && final(self).keep_alive == old(self).keep_alive && final(self).run == old(self).run,
    {
        self.middleware.push(handler);
    }

    /// Installs the error handler invoked when a route handler panics.
    pub fn error_handler(&mut self, res: E)
        ensures
            final(self).error_handler matches Some(e) && e == res,
            final(self).port == old(self).port && final(self).ip == old(self).ip && final(self).buff_size == old(self).buff_size && final(self).routes == old(self).routes && final(self).middleware == old(self).middleware && final(self).default_headers == old(self).default_headers && final(self).socket_timeout_ms == old(self).socket_timeout_ms
                && final(self).keep_alive == old(self).keep_alive && final(self).run == old(self).run,
    {
        self.error_handler = Option::Some(res);
    }

    /// Installs the error handler; the closure-style name for
    /// [`Server::error_handler`].
    pub fn error_handler_c(&mut self, res: E)
        ensures
            final(self).error_handler matches Some(e) && e == res,
            final(self).port == old(self).port && final(self).ip == old(self).ip && final(self).buff_size == old(self).buff_size && final(self).routes == old(self).routes && final(self).middleware == old(self).middleware && final(self).default_headers == old(self).default_headers && final(self).socket_timeout_ms == old(self).socket_timeout_ms
                && final(self).keep_alive == old(self).keep_alive && final(self).run == old(self).run,
    {
        self.error_handler = Option::Some(res);
    }

    /// Appends a route.  What the new route matches is fixed by
    /// [`crate::routing::spec_route_match`] over the compiled pattern.
    pub fn route(&mut self, method: Method, path: &str, handler: H)
        ensures
            final(self).routes@.len() == old(self).routes@.len() + 1,
            final(self).routes@.take(old(self).routes@.len() as int) == old(self).routes@,
            final(self).routes@.last().method == method,
            final(self).routes@.last().handler == handler,
            final(self).routes@.last().path.raw@ == crate::path::spec_normalize(path@),
            crate::path::parts_model(final(self).routes@.last().path.parts@)
                == crate::path::spec_compile(crate::path::spec_normalize(path@)),
            final(self).port == old(self).port && final(self).ip == old(self).ip && final(self).buff_size == old(self).buff_size && final(self).middleware == old(self).middleware
                && final(self).error_handler == old(self).error_handler && final(self).default_headers == old(self).default_headers && final(self).socket_timeout_ms == old(self).socket_timeout_ms && final(self).keep_alive == old(self).keep_alive && final(self).run == old(self).run,
    {
        self.routes.push(Route::new(method, Path::new(path), handler));
        proof {
            assert(self.routes@.take(self.routes@.len() - 1) =~= old(self).routes@);
        }
    }

    /// Appends a route; the closure-style name for [`Server::route`].
    pub fn route_c(&mut self, method: Method, path: &str, handler: H)
        ensures
            final(self).routes@.len() == old(self).routes@.len() + 1,
            final(self).routes@.take(old(self).routes@.len() as int) == old(self).routes@,
            final(self).routes@.last().method == method,
            final(self).routes@.last().handler == handler,
            final(self).routes@.last().path.raw@ == crate::path::spec_normalize(path@),
            crate::path::parts_model(final(self).routes@.last().path.parts@)
                == crate::path::spec_compile(crate::path::spec_normalize(path@)),
            final(self).port == old(self).port && final(self).ip == old(self).ip && final(self).buff_size == old(self).buff_size && final(self).middleware == old(self).middleware
                && final(self).error_handler == old(self).error_handler && final(self).default_headers == old(self).default_headers && final(self).socket_timeout_ms == old(self).socket_timeout_ms && final(self).keep_alive == old(self).keep_alive && final(self).run == old(self).run,
    {
        self.route(method, path, handler);
    }

    /// Appends a route for any method on the given path.
    pub fn any(&mut self, path: &str, handler: H)
        ensures
            final(self).routes@.len() == old(self).routes@.len() + 1,
            final(self).routes@.take(old(self).routes@.len() as int) == old(self).routes@,
            final(self).routes@.last().method == Method::ANY,
            final(self).routes@.last().handler == handler,
            final(self).routes@.last().path.raw@ == crate::path::spec_normalize(path@),
            crate::path::parts_model(final(self).routes@.last().path.parts@)
                == crate::path::spec_compile(crate::path::spec_normalize(path@)),
    {
        self.route(Method::ANY, path, handler);
    }

    /// Appends a catch-all route: any method, any path.  Registered first,
    /// it serves as a fallback that every later route overrides.
    pub fn all(&mut self, handler: H)
        ensures
            final(self).routes@.len() == old(self).routes@.len() + 1,
            final(self).routes@.take(old(self).routes@.len() as int) == old(self).routes@,
            final(self).routes@.last().method == Method::ANY,
            final(self).routes@.last().handler == handler,
            crate::path::parts_model(final(self).routes@.last().path.parts@)
                == crate::path::spec_compile(crate::path::spec_normalize("*"@)),
    {
        self.route(Method::ANY, "*", handler);
    }

    /// Appends a catch-all route; the closure-style name for
    /// [`Server::all`].
    pub fn all_c(&mut self, handler: H)
        ensures
            final(self).routes@.len() == old(self).routes@.len() + 1,
            final(self).routes@.take(old(self).routes@.len() as int) == old(self).routes@,
            final(self).routes@.last().method == Method::ANY,
            final(self).routes@.last().handler == handler,
            crate::path::parts_model(final(self).routes@.last().path.parts@)
                == crate::path::spec_compile(crate::path::spec_normalize("*"@)),
    {
        self.route(Method::ANY, "*", handler);
    }

    /// Resolves a request against the registered routes, most recently
    /// registered first.
    pub fn resolve(&self, method: &Method, path: &String) -> (r: Option<
        (usize, Vec<(String, String)>),
    >)
        ensures
            match r {
                Some(p) => crate::routing::spec_resolve(self.routes@, *method, path@) matches Some(
                    q,
                ) && q.0 == p.0 && q.1 == p.1.deep_view() && p.0 < self.routes@.len(),
                None => crate::routing::spec_resolve(self.routes@, *method, path@) is None,
            },
    {
        proof {
            crate::routing::lemma_resolve(self.routes@, *method, path@);
        }
        crate::routing::resolve(&self.routes, method, path)
    }
}

} // verus!
