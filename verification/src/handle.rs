//! The decisions of the connection loop: keep-alive negotiation, the
//! not-found response, and the mapping of every error to a well-formed
//! response.
//!
//! The host program owns the socket and the panic boundary; it reads,
//! parses through the codec, resolves routes, invokes handlers, and asks
//! these functions what to send and whether to keep the connection.

use vstd::prelude::*;

use crate::error::{Error, HandleError, ParseError, StreamError};
use crate::header::{header_index_of, spec_header_index, Header, HeaderType};
use crate::method::Method;
use crate::request::Request;
use crate::response::{Response, ResponseFlag};
use crate::text;

verus! {

/// Whether a parsed request asks to keep the connection: it does unless
/// its `Connection` header says `close` (in any case).
pub open spec fn spec_keep_alive(hs: Seq<Header>) -> bool {
    match spec_header_index(hs, HeaderType::Connection) {
        None => true,
        Some(i) => text::spec_lower(hs[i].value@) != "close"@,
    }
}

/// Reads the keep-alive request out of a request's headers.
pub fn keep_alive(req: &Request) -> (r: bool)
    ensures
        r == spec_keep_alive(req.headers@),
{
    proof {
        crate::header::lemma_header_index(req.headers@, HeaderType::Connection);
    }
    match header_index_of(&req.headers, &HeaderType::Connection) {
        Option::None => true,
        Option::Some(i) => {
            let value = text::chars_of(req.headers[i].value.as_str());
            let lower = text::to_lower(&value);
            !text::chars_eq_str(&lower, "close")
        },
    }
}

/// What the connection loop does after one response cycle.
#[derive(Debug, Clone, Copy, PartialEq, Eq, Structural)]
pub enum ConnAction {
    /// Stop the loop immediately, with no further framing.
    End,
    /// Close the socket after the response.
    Close,
    /// Loop back and await the next request on the same socket.
    KeepOpen,
}

/// The connection decision: `End` ends the loop at once; the socket closes
/// when the response forces it, when the request did not ask to keep the
/// connection, or when the server disables keep-alive; otherwise the
/// connection stays open for the next request.
pub open spec fn spec_connection_action(
    flag: ResponseFlag,
    keep_alive_requested: bool,
    server_keep_alive: bool,
) -> ConnAction {
    if flag == ResponseFlag::End {
        ConnAction::End
    } else if !keep_alive_requested || flag == ResponseFlag::Close || !server_keep_alive {
        ConnAction::Close
    } else {
        ConnAction::KeepOpen
    }
}

/// Decides what the connection loop does after a response.
pub fn connection_action(
    flag: ResponseFlag,
    keep_alive_requested: bool,
    server_keep_alive: bool,
) -> (r: ConnAction)
    ensures
        r == spec_connection_action(flag, keep_alive_requested, server_keep_alive),
{
    if flag == ResponseFlag::End {
        ConnAction::End
    } else if !keep_alive_requested || flag == ResponseFlag::Close || !server_keep_alive {
        ConnAction::Close
    } else {
        ConnAction::KeepOpen
    }
}

/// A basic error response: the given status, the given text as body, and
/// a `Content-Type: text/plain` header.
pub fn quick_err(text: &str, code: u16) -> (r: Response)
    ensures
        r.status == code,
        r.reason is None,
        r.data@ == vstd::utf8::encode_utf8(text@),
        r.headers@.len() == 1,
        r.headers@[0].name == HeaderType::ContentType,
        r.headers@[0].value@ == "text/plain"@,
        r.flag == ResponseFlag::Normal,
{
    Response::new().status(code).text(text).header(
        Header::new(HeaderType::ContentType, "text/plain"),
    )
}

/// The body of the response synthesized when no route matches.
pub open spec fn spec_not_found_text(method: Method, path: Seq<char>) -> Seq<char> {
    "Cannot "@ + method.spec_name() + " "@ + path
}

/// The 404 response synthesized when no route matches a request: its body
/// is `Cannot <METHOD> <path>`.
pub fn not_found_response(method: &Method, path: &str) -> (r: Response)
    ensures
        r.status == 404,
        r.reason is None,
        r.data@ == vstd::utf8::encode_utf8(spec_not_found_text(*method, path@)),
        r.headers@.len() == 1,
        r.headers@[0].name == HeaderType::ContentType,
        r.headers@[0].value@ == "text/plain"@,
        r.flag == ResponseFlag::Normal,
{
    let mut body = String::new();
    body.append("Cannot ");
    body.append(method.name());
    body.append(" ");
    body.append(path);
    quick_err(body.as_str(), 404)
}

/// The body of the built-in 500 response for a handler that panicked.
pub open spec fn spec_panic_text(message: Seq<char>) -> Seq<char> {
    "Internal Server Error :/\nError: "@ + message
}

/// The built-in response for a handler that panicked, used when no custom
/// error handler is installed: a 500 whose body echoes the failure text.
pub fn panic_response(message: &str) -> (r: Response)
    ensures
        r.status == 500,
        r.data@ == vstd::utf8::encode_utf8(spec_panic_text(message@)),
        r.headers@.len() == 1,
        r.headers@[0].name == HeaderType::ContentType,
        r.headers@[0].value@ == "text/plain"@,
        r.flag == ResponseFlag::Normal,
{
    let mut body = String::new();
    body.append("Internal Server Error :/\nError: ");
    body.append(message);
    quick_err(body.as_str(), 500)
}

/// The body of the 400 response for each parse error.
pub open spec fn spec_parse_error_text(e: ParseError) -> Seq<char> {
    match e {
        ParseError::NoSeparator => "No separator"@,
        ParseError::NoMethod => "No method"@,
        ParseError::NoPath => "No path"@,
        ParseError::NoVersion => "No HTTP version"@,
        ParseError::NoRequestLine => "No request line"@,
        ParseError::InvalidQuery => "Invalid query"@,
        ParseError::InvalidMethod => "Invalid method"@,
        ParseError::InvalidHeader => "Invalid header"@,
    }
}

/// Maps every error to a concrete response: transport and parse errors to
/// a 400, a routing miss to the synthesized 404, a handler panic to the
/// built-in 500 (the host program substitutes a custom error handler's
/// response before calling this), and a lower-level I/O failure to a 500
/// carrying its text.  The `NoResponse` sentinel never reaches this
/// mapping.
pub fn error_response(err: &Error) -> (r: Response)
    requires
        !(err matches Error::NoResponse),
    ensures
        match err {
            Error::Stream(StreamError::UnexpectedEof) => r.status == 400 && r.data@
                == vstd::utf8::encode_utf8("Unexpected EOF"@) && r.headers@.len() == 0,
            Error::Parse(e) => r.status == 400 && r.data@ == vstd::utf8::encode_utf8(
                spec_parse_error_text(*e),
            ) && r.headers@.len() == 0,
            Error::Handle(he) => match **he {
                HandleError::NotFound(m, ref p) => r.status == 404 && r.data@
                    == vstd::utf8::encode_utf8(spec_not_found_text(m, p@)) && r.headers@.len()
                    == 1 && r.headers@[0].name == HeaderType::ContentType
                    && r.headers@[0].value@ == "text/plain"@,
                HandleError::Panic(_, ref msg) => r.status == 500 && r.data@
                    == vstd::utf8::encode_utf8(spec_panic_text(msg@)) && r.headers@.len() == 1
                    && r.headers@[0].name == HeaderType::ContentType && r.headers@[0].value@
                    == "text/plain"@,
            },
            Error::Io(m) => r.status == 500 && r.data@ == vstd::utf8::encode_utf8(m@)
                && r.headers@.len() == 0,
            Error::NoResponse => false,
        },
{
    match err {
        Error::Stream(StreamError::UnexpectedEof) => Response::new().status(400).text(
            "Unexpected EOF",
        ),
        Error::Parse(e) => {
            let text: &str = match e {
                ParseError::NoSeparator => "No separator",
                ParseError::NoMethod => "No method",
                ParseError::NoPath => "No path",
                ParseError::NoVersion => "No HTTP version",
                ParseError::NoRequestLine => "No request line",
                ParseError::InvalidQuery => "Invalid query",
                ParseError::InvalidMethod => "Invalid method",
                ParseError::InvalidHeader => "Invalid header",
            };
            Response::new().status(400).text(text)
        },
        Error::Handle(he) => match &**he {
            HandleError::NotFound(m, p) => not_found_response(m, p.as_str()),
            HandleError::Panic(_, msg) => panic_response(msg.as_str()),
        },
        Error::Io(m) => {
            let body = m.clone();
            Response::new().status(500).text(body.as_str())
        },
        Error::NoResponse => Response::new(),
    }
}

/// Law: a request whose text has no `\r\n\r\n` separator parses to the
/// `NoSeparator` error — no request is built, so no handler or middleware
/// can see one — and the response mapped from that error is a 400.
pub proof fn lemma_no_separator_rejected(bytes: Seq<u8>)
    requires
        vstd::utf8::valid_utf8(bytes),
        forall|j: int| !text::find_at(vstd::utf8::decode_utf8(bytes), "\r\n\r\n"@, j),
    ensures
        crate::codec::spec_parse_outcome(vstd::utf8::decode_utf8(bytes)) == Some(
            ParseError::NoSeparator,
        ),
{
    reveal_strlit("\r\n\r\n");
    text::lemma_find_sub_none(vstd::utf8::decode_utf8(bytes), "\r\n\r\n"@);
}

} // verus!
