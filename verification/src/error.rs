//! The error taxonomy of the engine: transport, parse, handling and I/O
//! errors, each mapped to a well-formed response by
//! [`crate::handle::error_response`].

use vstd::prelude::*;

use crate::method::Method;
use crate::request::Request;

verus! {

/// Any error that can arise while serving one connection.
#[derive(Debug)]
pub enum Error {
    /// An error on the byte stream itself.
    Stream(StreamError),
    /// An error while handling a parsed request.
    Handle(Box<HandleError>),
    /// An error while parsing the bytes of a request.
    Parse(ParseError),
    /// A lower-level I/O failure, carried as text.
    Io(String),
    /// No response could be produced, typically downstream of another error.
    /// This is an internal sentinel: it never reaches the response mapping.
    NoResponse,
}

/// An error that can arise while routing or running a handler.
#[derive(Debug)]
pub enum HandleError {
    /// No route matched the request's method and path.
    NotFound(Method, String),
    /// A route handler failed unrecoverably; carries the outcome of the
    /// parse that produced the request, and the failure message.
    Panic(Box<Result<Request, Error>>, String),
}

/// An error found while parsing the HTTP text of a request.
#[derive(Debug, Clone, PartialEq, Eq, Structural)]
pub enum ParseError {
    /// No `\r\n\r\n` separates the metadata from the body.
    NoSeparator,
    /// The request line has no method.
    NoMethod,
    /// The request line has no path.
    NoPath,
    /// The request line has no version.
    NoVersion,
    /// The request has no request line at all.
    NoRequestLine,
    /// The query string holds an invalid escape.
    InvalidQuery,
    /// The method is not a known verb.
    InvalidMethod,
    /// A header line is malformed.
    InvalidHeader,
}

/// An error while reading from or writing to a stream.
#[derive(Debug, Clone, PartialEq, Eq, Structural)]
pub enum StreamError {
    /// The stream ended before a full request was read.
    UnexpectedEof,
}

impl From<StreamError> for Error {
    fn from(e: StreamError) -> (r: Error) {
        Error::Stream(e)
    }
}

impl vstd::std_specs::convert::FromSpecImpl<StreamError> for Error {
    open spec fn obeys_from_spec() -> bool {
        true
    }

    open spec fn from_spec(e: StreamError) -> Error {
        Error::Stream(e)
    }
}

impl From<ParseError> for Error {
    fn from(e: ParseError) -> (r: Error) {
        Error::Parse(e)
    }
}

impl vstd::std_specs::convert::FromSpecImpl<ParseError> for Error {
    open spec fn obeys_from_spec() -> bool {
        true
    }

    open spec fn from_spec(e: ParseError) -> Error {
        Error::Parse(e)
    }
}

impl From<HandleError> for Error {
    fn from(e: HandleError) -> (r: Error) {
        Error::Handle(Box::new(e))
    }
}

impl vstd::std_specs::convert::FromSpecImpl<HandleError> for Error {
    open spec fn obeys_from_spec() -> bool {
        true
    }

    open spec fn from_spec(e: HandleError) -> Error {
        Error::Handle(Box::new(e))
    }
}

} // verus!
