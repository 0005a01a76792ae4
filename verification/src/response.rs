//! A structured HTTP response, built by the handler and serialized by the
//! wire codec.

use vstd::prelude::*;

use crate::header::{clone_headers, Header, HeaderType};

verus! {

/// How a response interacts with the connection loop after it is written.
#[derive(Debug, Clone, Copy, PartialEq, Eq, Structural)]
pub enum ResponseFlag {
    /// Honor the negotiated keep-alive.
    Normal,
    /// Force-close the connection after this response.
    Close,
    /// Stop the connection loop immediately, with no further framing.
    End,
    /// The handler will write the response itself, on another thread; the
    /// connection loop must wait on the barrier before proceeding.
    GuaranteedSend,
}

/// A structured response: status, optional custom reason phrase, headers,
/// body bytes, and the connection-control flag.
#[derive(Debug)]
pub struct Response {
    /// Numeric status code.
    pub status: u16,
    /// Custom reason phrase; the standard table is used when absent.
    pub reason: Option<String>,
    /// Response headers set by the handler.
    pub headers: Vec<Header>,
    /// Body bytes.
    pub data: Vec<u8>,
    /// Connection-control flag.
    pub flag: ResponseFlag,
}

impl Clone for Response {
    fn clone(&self) -> (r: Response)
        ensures
            r.status == self.status,
            r.reason == self.reason,
            r.headers@ == self.headers@,
            r.data@ == self.data@,
            r.flag == self.flag,
    {
        let reason: Option<String> = match &self.reason {
            Option::Some(s) => Option::Some(s.clone()),
            Option::None => Option::None,
        };
        Response {
            status: self.status,
            reason,
            headers: clone_headers(&self.headers),
            data: crate::text::copy_bytes(&self.data),
            flag: self.flag,
        }
    }
}

impl Response {
    /// A fresh response: status 200, empty body, no headers, default
    /// connection handling.
    pub fn new() -> (r: Response)
        ensures
            r.status == 200,
            r.reason is None,
            r.headers@.len() == 0,
            r.data@.len() == 0,
            r.flag == ResponseFlag::Normal,
    {
        Response {
            status: 200,
            reason: Option::None,
            headers: Vec::new(),
            data: Vec::new(),
            flag: ResponseFlag::Normal,
        }
    }

    /// Sets the status code.
    pub fn status(self, code: u16) -> (r: Response)
        ensures
            r == (Response { status: code, ..self }),
    {
        Response { status: code, ..self }
    }

    /// Sets a custom reason phrase.
    pub fn reason(self, phrase: &str) -> (r: Response)
        ensures
            r.status == self.status,
            r.reason matches Some(s) && s@ == phrase@,
            r.headers == self.headers,
            r.data == self.data,
            r.flag == self.flag,
    {
        Response { reason: Option::Some(phrase.to_owned()), ..self }
    }

    /// Sets the body to the UTF-8 bytes of a text.
    pub fn text(self, body: &str) -> (r: Response)
        ensures
            r.status == self.status,
            r.reason == self.reason,
            r.headers == self.headers,
            r.data@ == vstd::utf8::encode_utf8(body@),
            r.flag == self.flag,
    {
        Response { data: body.as_bytes_vec(), ..self }
    }

    /// Sets the body bytes.
    pub fn bytes(self, data: Vec<u8>) -> (r: Response)
        ensures
            r == (Response { data, ..self }),
    {
        Response { data, ..self }
    }

    /// Appends a header.
    pub fn header(self, header: Header) -> (r: Response)
        ensures
            r.status == self.status,
            r.reason == self.reason,
            r.headers@ == self.headers@.push(header),
            r.data == self.data,
            r.flag == self.flag,
    {
        let mut headers = self.headers;
        headers.push(header);
        Response { headers, ..self }
    }

    /// Sets the connection-control flag.
    pub fn flag(self, flag: ResponseFlag) -> (r: Response)
        ensures
            r == (Response { flag, ..self }),
    {
        Response { flag, ..self }
    }

    /// Forces the connection to close after this response.
    pub fn close(self) -> (r: Response)
        ensures
            r == (Response { flag: ResponseFlag::Close, ..self }),
    {
        Response { flag: ResponseFlag::Close, ..self }
    }
}

/// The standard reason phrase for a status code; `OK` for any code outside
/// the table.
pub open spec fn spec_reason_phrase(status: int) -> Seq<char> {
    if status == 100 {
        "Continue"@
    } else if status == 101 {
        "Switching Protocols"@
    } else if status == 200 {
        "OK"@
    } else if status == 201 {
        "Created"@
    } else if status == 202 {
        "Accepted"@
    } else if status == 203 {
        "Non-Authoritative Information"@
    } else if status == 204 {
        "No Content"@
    } else if status == 205 {
        "Reset Content"@
    } else if status == 206 {
        "Partial Content"@
    } else if status == 300 {
        "Multiple Choices"@
    } else if status == 301 {
        "Moved Permanently"@
    } else if status == 302 {
        "Found"@
    } else if status == 303 {
        "See Other"@
    } else if status == 304 {
        "Not Modified"@
    } else if status == 307 {
        "Temporary Redirect"@
    } else if status == 308 {
        "Permanent Redirect"@
    } else if status == 400 {
        "Bad Request"@
    } else if status == 401 {
        "Unauthorized"@
    } else if status == 403 {
        "Forbidden"@
    } else if status == 404 {
        "Not Found"@
    } else if status == 405 {
        "Method Not Allowed"@
    } else if status == 406 {
        "Not Acceptable"@
    } else if status == 408 {
        "Request Timeout"@
    } else if status == 409 {
        "Conflict"@
    } else if status == 410 {
        "Gone"@
    } else if status == 411 {
        "Length Required"@
    } else if status == 413 {
        "Payload Too Large"@
    } else if status == 414 {
        "URI Too Long"@
    } else if status == 415 {
        "Unsupported Media Type"@
    } else if status == 418 {
        "I'm a Teapot"@
    } else if status == 429 {
        "Too Many Requests"@
    } else if status == 500 {
        "Internal Server Error"@
    } else if status == 501 {
        "Not Implemented"@
    } else if status == 502 {
        "Bad Gateway"@
    } else if status == 503 {
        "Service Unavailable"@
    } else if status == 504 {
        "Gateway Timeout"@
    } else if status == 505 {
        "HTTP Version Not Supported"@
    } else {
        "OK"@
    }
}

/// The standard reason phrase for a status code.
pub fn reason_phrase(status: u16) -> (r: String)
    ensures
        r@ == spec_reason_phrase(status as int),
{
    let s: &str = match status {
        100 => "Continue",
        101 => "Switching Protocols",
        200 => "OK",
        201 => "Created",
        202 => "Accepted",
        203 => "Non-Authoritative Information",
        204 => "No Content",
        205 => "Reset Content",
        206 => "Partial Content",
        300 => "Multiple Choices",
        301 => "Moved Permanently",
        302 => "Found",
        303 => "See Other",
        304 => "Not Modified",
        307 => "Temporary Redirect",
        308 => "Permanent Redirect",
        400 => "Bad Request",
        401 => "Unauthorized",
        403 => "Forbidden",
        404 => "Not Found",
        405 => "Method Not Allowed",
        406 => "Not Acceptable",
        408 => "Request Timeout",
        409 => "Conflict",
        410 => "Gone",
        411 => "Length Required",
        413 => "Payload Too Large",
        414 => "URI Too Long",
        415 => "Unsupported Media Type",
        418 => "I'm a Teapot",
        429 => "Too Many Requests",
        500 => "Internal Server Error",
        501 => "Not Implemented",
        502 => "Bad Gateway",
        503 => "Service Unavailable",
        504 => "Gateway Timeout",
        505 => "HTTP Version Not Supported",
        _ => "OK",
    };
    s.to_owned()
}

} // verus!
