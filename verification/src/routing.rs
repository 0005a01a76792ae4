//! The route table: an append-only list of routes, resolved in reverse
//! registration order so that the most recently registered match wins.

use vstd::prelude::*;

use crate::method::Method;
use crate::path::{parts_model, spec_match_path, Path};

verus! {

/// One registered route: a method filter, a compiled path pattern, and the
/// handler value the host program registered.  The engine never calls the
/// handler itself; it hands it back on a match.
#[derive(Debug)]
pub struct Route<H> {
    /// The method filter; `ANY` accepts every method.
    pub method: Method,
    /// The compiled path pattern.
    pub path: Path,
    /// The registered handler value.
    pub handler: H,
}

impl<H> Route<H> {
    /// Makes a route.
    pub fn new(method: Method, path: Path, handler: H) -> (r: Route<H>)
        ensures
            r.method == method,
            r.path == path,
            r.handler == handler,
    {
        Route { method, path, handler }
    }
}

/// Whether one route accepts a request, and what it captures: the method
/// filter must accept the method, and the pattern must match the path.
pub open spec fn spec_route_match<H>(r: Route<H>, method: Method, path: Seq<char>) -> Option<
    Seq<(Seq<char>, Seq<char>)>,
> {
    if r.method == method || r.method == Method::ANY {
        spec_match_path(parts_model(r.path.parts@), path)
    } else {
        None
    }
}

/// The route that serves a request: the last registered route that
/// matches, together with its index and captures.
pub open spec fn spec_resolve<H>(routes: Seq<Route<H>>, method: Method, path: Seq<char>) -> Option<
    (int, Seq<(Seq<char>, Seq<char>)>),
>
    decreases routes.len(),
{
    if routes.len() == 0 {
        None
    } else {
        match spec_route_match(routes.last(), method, path) {
            Some(caps) => Some((routes.len() - 1, caps)),
            None => spec_resolve(routes.drop_last(), method, path),
        }
    }
}

/// `spec_resolve` picks the matching route with the greatest index, and
/// `None` exactly when no route matches.
pub proof fn lemma_resolve<H>(routes: Seq<Route<H>>, method: Method, path: Seq<char>)
    ensures
        match spec_resolve(routes, method, path) {
            Some(p) => 0 <= p.0 < routes.len() && spec_route_match(routes[p.0], method, path)
                == Some(p.1) && (forall|j: int|
                p.0 < j < routes.len() ==> spec_route_match(routes[j], method, path) is None),
            None => forall|j: int|
                0 <= j < routes.len() ==> spec_route_match(routes[j], method, path) is None,
        },
    decreases routes.len(),
{
    if routes.len() > 0 && spec_route_match(routes.last(), method, path) is None {
        lemma_resolve(routes.drop_last(), method, path);
        assert(forall|j: int|
            0 <= j < routes.len() - 1 ==> routes.drop_last()[j] == routes[j]);
    }
}

/// Law: of two registered routes that both accept a request, the one
/// registered later is resolved — a later registration strictly overrides
/// an earlier one.
pub proof fn lemma_last_registered_wins<H>(
    routes: Seq<Route<H>>,
    method: Method,
    path: Seq<char>,
    i: int,
    j: int,
)
    requires
        0 <= i < j < routes.len(),
        spec_route_match(routes[i], method, path) is Some,
        spec_route_match(routes[j], method, path) is Some,
    ensures
        spec_resolve(routes, method, path) matches Some(p) && j <= p.0 < routes.len(),
        spec_resolve(routes, method, path) matches Some(p) && p.0 != i,
{
    lemma_resolve(routes, method, path);
    match spec_resolve(routes, method, path) {
        Some(p) => {
            if p.0 < j {
                assert(spec_route_match(routes[j], method, path) is None);
            }
        },
        None => {
            assert(spec_route_match(routes[j], method, path) is None);
        },
    }
}

/// Resolves a request against the route table, walking it in reverse
/// registration order; yields the index of the winning route and the
/// parameters its pattern captured.
#[verifier::loop_isolation(false)]
pub fn resolve<H>(routes: &Vec<Route<H>>, method: &Method, path: &String) -> (r: Option<
    (usize, Vec<(String, String)>),
>)
    ensures
        match r {
            Some(p) => spec_resolve(routes@, *method, path@) matches Some(q) && q.0 == p.0
                && q.1 == p.1.deep_view(),
            None => spec_resolve(routes@, *method, path@) is None,
        },
{
    proof {
        lemma_resolve(routes@, *method, path@);
    }
    let mut i: usize = routes.len();
    while i > 0
        invariant
            i <= routes@.len(),
            forall|j: int|
                i <= j < routes@.len() ==> spec_route_match(routes@[j], *method, path@) is None,
            spec_resolve(routes@, *method, path@) matches Some(q) ==> q.0 < i,
        decreases i,
    {
        i = i - 1;
        let accepts = match (&routes[i].method, method) {
            (Method::ANY, _) => true,
            (a, b) => *a == *b,
        };
        if accepts {
            match routes[i].path.match_path(path.clone()) {
                Option::Some(caps) => {
                    return Some((i, caps));
                },
                Option::None => {},
            }
        }
    }
    None
}

} // verus!
