//! A parsed HTTP request.

use vstd::prelude::*;

use crate::header::Header;
use crate::method::Method;
use crate::query::{spec_query_index, lemma_query_index, Query};
use crate::text;

verus! {

/// Everything the engine knows about one request: the parsed request line,
/// query, headers and body, the captured path parameters, the peer
/// address, and the raw bytes the request was read from.
#[derive(Debug, Clone)]
pub struct Request {
    /// Request method.
    pub method: Method,
    /// Request path, with the query string removed.
    pub path: String,
    /// Path parameters captured by the matching route, populated exactly
    /// once at match time.
    pub path_prams: Vec<(String, String)>,
    /// Query parsed from the request path.
    pub query: Query,
    /// Request headers, in the order they were received.
    pub headers: Vec<Header>,
    /// Request body bytes.
    pub body: Vec<u8>,
    /// Peer address.
    pub address: String,
    /// The raw bytes of the request, kept for diagnostics.
    pub raw_data: Vec<u8>,
}

/// The first index of `hs` whose header name, written canonically, equals
/// `name` ascii-case-insensitively.
pub open spec fn spec_header_lookup(hs: Seq<Header>, name: Seq<char>) -> Option<int>
    decreases hs.len(),
{
    if hs.len() == 0 {
        None
    } else if text::spec_lower(hs[0].name.spec_name()) == text::spec_lower(name) {
        Some(0)
    } else {
        match spec_header_lookup(hs.drop_first(), name) {
            None => None,
            Some(i) => Some(i + 1),
        }
    }
}

/// `spec_header_lookup` finds the least matching index, and `None` exactly
/// when no header matches.
pub proof fn lemma_header_lookup(hs: Seq<Header>, name: Seq<char>)
    ensures
        match spec_header_lookup(hs, name) {
            Some(i) => 0 <= i < hs.len() && text::spec_lower(hs[i].name.spec_name())
                == text::spec_lower(name) && (forall|j: int|
                0 <= j < i ==> text::spec_lower(hs[j].name.spec_name()) != text::spec_lower(name)),
            None => forall|j: int|
                0 <= j < hs.len() ==> text::spec_lower(hs[j].name.spec_name())
                    != text::spec_lower(name),
        },
    decreases hs.len(),
{
    if hs.len() > 0 && text::spec_lower(hs[0].name.spec_name()) != text::spec_lower(name) {
        lemma_header_lookup(hs.drop_first(), name);
        assert forall|j: int| 1 <= j < hs.len() implies hs[j] == hs.drop_first()[j - 1] by {}
    }
}

impl Request {
    /// The body as text, when it is valid UTF-8.
    pub fn body_string(&self) -> (r: Option<String>)
        ensures
            match r {
                Some(s) => vstd::utf8::valid_utf8(self.body@) && s@ == vstd::utf8::decode_utf8(
                    self.body@,
                ),
                None => !vstd::utf8::valid_utf8(self.body@),
            },
    {
        text::string_from_utf8(text::copy_bytes(&self.body))
    }

    /// The value of the first header whose name equals `name`, compared
    /// ascii-case-insensitively against the canonical spelling.
    #[verifier::loop_isolation(false)]
    pub fn header(&self, name: &str) -> (r: Option<String>)
        ensures
            match r {
                Some(v) => spec_header_lookup(self.headers@, name@) matches Some(i) && v@
                    == self.headers@[i].value@,
                None => spec_header_lookup(self.headers@, name@) is None,
            },
    {
        proof {
            lemma_header_lookup(self.headers@, name@);
        }
        let want = text::chars_of(name);
        let want_lower = text::to_lower(&want);
        let mut i: usize = 0;
        while i < self.headers.len()
            invariant
                i <= self.headers@.len(),
                want_lower@ == text::spec_lower(name@),
                forall|j: int|
                    0 <= j < i ==> text::spec_lower(self.headers@[j].name.spec_name())
                        != text::spec_lower(name@),
                spec_header_lookup(self.headers@, name@) matches Some(k) ==> i <= k,
            decreases self.headers@.len() - i,
        {
            let have = text::chars_of(self.headers[i].name.name());
            let have_lower = text::to_lower(&have);
            if text::chars_eq(&have_lower, &want_lower) {
                return Some(self.headers[i].value.clone());
            }
            i = i + 1;
        }
        None
    }

    /// The value captured for the path parameter `name` by the route that
    /// matched this request.
    #[verifier::loop_isolation(false)]
    pub fn path_pram(&self, name: &str) -> (r: Option<String>)
        ensures
            match r {
                Some(v) => spec_query_index(self.path_prams.deep_view(), name@) matches Some(i)
                    && v@ == self.path_prams.deep_view()[i].1,
                None => spec_query_index(self.path_prams.deep_view(), name@) is None,
            },
    {
        proof {
            lemma_query_index(self.path_prams.deep_view(), name@);
        }
        let mut i: usize = 0;
        while i < self.path_prams.len()
            invariant
                i <= self.path_prams@.len(),
                forall|j: int| 0 <= j < i ==> self.path_prams.deep_view()[j].0 != name@,
                spec_query_index(self.path_prams.deep_view(), name@) matches Some(k) ==> i <= k,
            decreases self.path_prams@.len() - i,
        {
            proof {
                assert(self.path_prams.deep_view()[i as int] == (
                    self.path_prams@[i as int].0@,
                    self.path_prams@[i as int].1@,
                ));
            }
            if text::str_eq(self.path_prams[i].0.as_str(), name) {
                return Some(self.path_prams[i].1.clone());
            }
            i = i + 1;
        }
        None
    }
}

} // verus!
