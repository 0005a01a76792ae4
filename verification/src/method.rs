//! HTTP request methods.

use vstd::prelude::*;

use crate::text;

verus! {

/// The verbs a route can be registered for.  `ANY` is a filter that accepts
/// every method; it never appears in a parsed request.
#[derive(Debug, Clone, Copy, PartialEq, Eq, Structural)]
#[allow(missing_docs)]
pub enum Method {
    GET,
    POST,
    PUT,
    DELETE,
    OPTIONS,
    HEAD,
    PATCH,
    TRACE,
    ANY,
}

impl Method {
    /// The method's name as written on the wire.
    pub open spec fn spec_name(self) -> Seq<char> {
        match self {
            Method::GET => "GET"@,
            Method::POST => "POST"@,
            Method::PUT => "PUT"@,
            Method::DELETE => "DELETE"@,
            Method::OPTIONS => "OPTIONS"@,
            Method::HEAD => "HEAD"@,
            Method::PATCH => "PATCH"@,
            Method::TRACE => "TRACE"@,
            Method::ANY => "ANY"@,
        }
    }

    /// The method whose wire name is `s`, if any.  `ANY` is not a wire
    /// name: it cannot be parsed from a request.
    pub open spec fn spec_parse(s: Seq<char>) -> Option<Method> {
        if s == "GET"@ {
            Some(Method::GET)
        } else if s == "POST"@ {
            Some(Method::POST)
        } else if s == "PUT"@ {
            Some(Method::PUT)
        } else if s == "DELETE"@ {
            Some(Method::DELETE)
        } else if s == "OPTIONS"@ {
            Some(Method::OPTIONS)
        } else if s == "HEAD"@ {
            Some(Method::HEAD)
        } else if s == "PATCH"@ {
            Some(Method::PATCH)
        } else if s == "TRACE"@ {
            Some(Method::TRACE)
        } else {
            None
        }
    }

    /// Renders the method's name.
    pub fn name(&self) -> (r: &'static str)
        ensures
            r@ == self.spec_name(),
    {
        match self {
            Method::GET => "GET",
            Method::POST => "POST",
            Method::PUT => "PUT",
            Method::DELETE => "DELETE",
            Method::OPTIONS => "OPTIONS",
            Method::HEAD => "HEAD",
            Method::PATCH => "PATCH",
            Method::TRACE => "TRACE",
            Method::ANY => "ANY",
        }
    }

    /// Reads a method from its wire name.
    pub fn parse_chars(v: &Vec<char>) -> (r: Option<Method>)
        ensures
            r == Method::spec_parse(v@),
    {
        if text::chars_eq_str(v, "GET") {
            Some(Method::GET)
        } else if text::chars_eq_str(v, "POST") {
            Some(Method::POST)
        } else if text::chars_eq_str(v, "PUT") {
            Some(Method::PUT)
        } else if text::chars_eq_str(v, "DELETE") {
            Some(Method::DELETE)
        } else if text::chars_eq_str(v, "OPTIONS") {
            Some(Method::OPTIONS)
        } else if text::chars_eq_str(v, "HEAD") {
            Some(Method::HEAD)
        } else if text::chars_eq_str(v, "PATCH") {
            Some(Method::PATCH)
        } else if text::chars_eq_str(v, "TRACE") {
            Some(Method::TRACE)
        } else {
            None
        }
    }
}

} // verus!
