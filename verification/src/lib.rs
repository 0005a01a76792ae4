//! A small, verified HTTP/1.1 server engine.
//!
//! The crate owns the protocol pipeline of a tiny web server: parsing raw
//! request bytes into a structured [`Request`], matching it against a
//! priority-ordered route table with path-pattern captures, driving a
//! pre/post middleware chain, mapping every failure to a well-formed
//! response, and serializing a [`Response`] back into bytes with correct
//! framing and keep-alive bookkeeping.
//!
//! Everything that computes is verified here; the socket loop, the worker
//! threads and the panic boundary around user handlers live in the host
//! program, which drives the verified engine step by step.

use vstd::prelude::*;

verus! {

/// The engine's version, as advertised in the default `Server` header.
pub const VERSION: &'static str = "1.1.0*";

} // verus!

pub mod codec;
pub mod common;
pub mod encoding;
pub mod error;
pub mod handle;
pub mod header;
pub mod method;
pub mod middleware;
pub mod path;
pub mod query;
pub mod request;
pub mod response;
pub mod routing;
pub mod server;
pub mod text;

pub use codec::{content_length, parse_request, response_bytes};
pub use common::cmp_vec;
pub use encoding::{decode, encode};
pub use error::{Error, HandleError, ParseError, StreamError};
pub use handle::{
    connection_action, error_response, keep_alive, not_found_response, panic_response, quick_err,
    ConnAction,
};
pub use header::{Header, HeaderParams, HeaderType, Headers};
pub use method::Method;
pub use middleware::{MiddleRequest, MiddleResponse, PostChain, PreChain};
pub use path::{Path, PathPart};
pub use query::Query;
pub use response::{reason_phrase, Response, ResponseFlag};
pub use request::Request;
pub use routing::Route;
pub use server::{parse_ip, Server};
pub use text::u64_to_string;
