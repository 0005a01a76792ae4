//! The wire codec: parsing raw request bytes into a [`Request`], and
//! serializing a [`Response`] into bytes with correct framing.
//!
//! A request is text up to the `\r\n\r\n` separator — a request line
//! `METHOD path HTTP/version` and one header per line — followed by the
//! body bytes.  Each way a request can be malformed maps to its own
//! [`ParseError`].

use vstd::prelude::*;

use crate::error::{Error, ParseError};
use crate::header::{spec_header_from, spec_header_index, Header, HeaderType};
use crate::method::Method;
use crate::query::{spec_query_from, Query};
use crate::request::Request;
use crate::response::{spec_reason_phrase, Response};
use crate::text;

verus! {

/// The lines of the part of a request before the separator.
pub open spec fn spec_lines(head: Seq<char>) -> Seq<Seq<char>> {
    text::spec_split(head, "\r\n"@)
}

/// The space-separated tokens of the request line.
pub open spec fn spec_tokens(head: Seq<char>) -> Seq<Seq<char>> {
    text::spec_split(spec_lines(head)[0], " "@)
}

/// One `&`-separated part of a query string is acceptable when it has no
/// `=` (it is then skipped) or when both of its sides url-decode.
pub open spec fn spec_query_part_ok(part: Seq<char>) -> bool {
    match text::spec_split2(part, "="@) {
        (_, Option::None) => true,
        (k, Option::Some(v)) => crate::encoding::spec_decode(k) is Some
            && crate::encoding::spec_decode(v) is Some,
    }
}

/// Every part of the query string is acceptable.
pub open spec fn spec_query_ok(qs: Seq<char>) -> bool {
    forall|i: int|
        0 <= i < text::spec_split(qs, "&"@).len() ==> spec_query_part_ok(
            text::spec_split(qs, "&"@)[i],
        )
}

/// The query string of the request-line path token, if it has one.
pub open spec fn spec_path_query(tok: Seq<char>) -> (Seq<char>, Option<Seq<char>>) {
    text::spec_split2(tok, "?"@)
}

/// Every header line holds a `:`.
pub open spec fn spec_headers_ok(hlines: Seq<Seq<char>>) -> bool {
    forall|i: int|
        0 <= i < hlines.len() ==> text::spec_split2(hlines[i], ":"@).1 is Some
}

/// Which parse error the part of a request before the separator carries,
/// if any; the checks run in this order.
pub open spec fn spec_outcome_head(head: Seq<char>) -> Option<ParseError> {
    let lines = spec_lines(head);
    let tokens = spec_tokens(head);
    if head.len() == 0 {
        Some(ParseError::NoRequestLine)
    } else if tokens.len() > 3 {
        Some(ParseError::NoRequestLine)
    } else if tokens[0].len() == 0 {
        Some(ParseError::NoMethod)
    } else if Method::spec_parse(tokens[0]) is None {
        Some(ParseError::InvalidMethod)
    } else if tokens.len() < 2 || tokens[1].len() == 0 {
        Some(ParseError::NoPath)
    } else if tokens.len() < 3 || tokens[2].len() == 0 {
        Some(ParseError::NoVersion)
    } else if !(match spec_path_query(tokens[1]).1 {
        Option::None => true,
        Option::Some(qs) => spec_query_ok(qs),
    }) {
        Some(ParseError::InvalidQuery)
    } else if !spec_headers_ok(lines.drop_first()) {
        Some(ParseError::InvalidHeader)
    } else {
        None
    }
}

/// Which parse error a whole request text carries, if any.
pub open spec fn spec_parse_outcome(s: Seq<char>) -> Option<ParseError> {
    match text::spec_find_sub(s, "\r\n\r\n"@) {
        None => Some(ParseError::NoSeparator),
        Some(sep) => spec_outcome_head(s.take(sep)),
    }
}

/// What a successfully parsed request holds, given the request text `s`,
/// the peer address and the raw bytes.
pub open spec fn spec_request_ok(req: Request, s: Seq<char>, addr: Seq<char>, raw: Seq<u8>) -> bool {
    match text::spec_find_sub(s, "\r\n\r\n"@) {
        None => false,
        Some(sep) => {
            let head = s.take(sep);
            let body = s.skip(sep + 4);
            let lines = spec_lines(head);
            let tokens = spec_tokens(head);
            let pq = spec_path_query(tokens[1]);
            &&& Method::spec_parse(tokens[0]) == Some(req.method)
            &&& req.path@ == pq.0
            &&& req.query.0.deep_view() == (match pq.1 {
                Option::None => Seq::<(Seq<char>, Seq<char>)>::empty(),
                Option::Some(qs) => spec_query_from(qs),
            })
            &&& req.headers@.len() == lines.len() - 1
            &&& (forall|i: int|
                0 <= i < lines.len() - 1 ==> spec_header_from(
                    Result::Ok(req.headers@[i]),
                    lines[i + 1],
                ))
            &&& req.body@ == vstd::utf8::encode_utf8(body)
            &&& req.path_prams@.len() == 0
            &&& req.address@ == addr
            &&& req.raw_data@ == raw
        },
    }
}

/// What [`parse_request`] returns for the raw bytes of a request: an I/O
/// error on bytes that are not UTF-8, the first parse error found per
/// [`spec_parse_outcome`], and otherwise the request that
/// [`spec_request_ok`] describes.
pub open spec fn spec_parse_result(
    r: Result<Request, Error>,
    bytes: Seq<u8>,
    addr: Seq<char>,
) -> bool {
    if !vstd::utf8::valid_utf8(bytes) {
        r matches Err(e) && e matches Error::Io(m) && m@ == "request bytes are not valid utf-8"@
    } else {
        let s = vstd::utf8::decode_utf8(bytes);
        match spec_parse_outcome(s) {
            Some(pe) => r matches Err(e) && e matches Error::Parse(p) && p == pe,
            None => r matches Ok(req) && spec_request_ok(req, s, addr, bytes),
        }
    }
}

/// Reads the `&`-separated, url decoded pairs of a query string, failing
/// on the first side whose decode fails.
#[verifier::loop_isolation(false)]
fn parse_query_strict(qs: &Vec<char>) -> (r: Option<Vec<(String, String)>>)
    ensures
        match r {
            Some(pairs) => spec_query_ok(qs@) && pairs.deep_view() == spec_query_from(qs@),
            None => !spec_query_ok(qs@),
        },
{
    let amp: Vec<char> = vec!['&'];
    let eq: Vec<char> = vec!['='];
    proof {
        reveal_strlit("&");
        reveal_strlit("=");
        assert(amp@ =~= "&"@);
        assert(eq@ =~= "="@);
    }
    let parts = text::split_on(qs, &amp);
    let ghost all = parts.deep_view();
    let mut out: Vec<(String, String)> = Vec::new();
    let mut i: usize = 0;
    proof {
        assert(all.skip(0int) =~= all);
    }
    while i < parts.len()
        invariant
            i <= parts@.len(),
            forall|j: int| 0 <= j < i ==> spec_query_part_ok(all[j]),
            crate::query::spec_query_pairs(all) == out.deep_view()
                + crate::query::spec_query_pairs(all.skip(i as int)),
        decreases parts@.len() - i,
    {
        let ghost rest = all.skip(i as int);
        proof {
            text::lemma_deep_index(&parts, i as int);
            assert(rest[0] == all[i as int]);
            assert(rest[0] == parts@[i as int]@);
            assert(rest.drop_first() =~= all.skip(i + 1));
        }
        let (k, v_opt) = text::split2_on(&parts[i], &eq);
        match v_opt {
            Option::None => {},
            Option::Some(v) => {
                let key = match crate::encoding::decode_chars(&k) {
                    Some(d) => text::string_of(&d),
                    None => {
                        return None;
                    },
                };
                let value = match crate::encoding::decode_chars(&v) {
                    Some(d) => text::string_of(&d),
                    None => {
                        return None;
                    },
                };
                out.push((key, value));
            },
        }
        proof {
            assert(out.deep_view() + crate::query::spec_query_pairs(all.skip(i + 1))
                =~= crate::query::spec_query_pairs(all));
        }
        i = i + 1;
    }
    proof {
        assert(all.skip(parts@.len() as int) =~= Seq::<Seq<char>>::empty());
        assert(out.deep_view() + crate::query::spec_query_pairs(Seq::<Seq<char>>::empty())
            =~= out.deep_view());
    }
    Some(out)
}

/// Parses the raw bytes of one request, read from the socket, into a
/// [`Request`].  The body is everything after the separator; the peer
/// address is carried through; the raw bytes are kept.
#[verifier::loop_isolation(false)]
pub fn parse_request(buffer: &Vec<u8>, address: &str) -> (r: Result<Request, Error>)
    ensures
        spec_parse_result(r, buffer@, address@),
{
    let text_opt = text::string_from_utf8(text::copy_bytes(buffer));
    let full = match text_opt {
        Option::None => {
            return Err(Error::Io("request bytes are not valid utf-8".to_owned()));
        },
        Option::Some(t) => t,
    };
    let s = text::chars_of(full.as_str());
    let sep4: Vec<char> = vec!['\r', '\n', '\r', '\n'];
    let crlf: Vec<char> = vec!['\r', '\n'];
    let space: Vec<char> = vec![' '];
    let qmark: Vec<char> = vec!['?'];
    proof {
        reveal_strlit("\r\n\r\n");
        reveal_strlit("\r\n");
        reveal_strlit(" ");
        reveal_strlit("?");
        assert(sep4@ =~= "\r\n\r\n"@);
        assert(crlf@ =~= "\r\n"@);
        assert(space@ =~= " "@);
        assert(qmark@ =~= "?"@);
    }
    let (head, body_opt) = text::split2_on(&s, &sep4);
    let body_chars = match body_opt {
        Option::None => {
            return Err(Error::Parse(ParseError::NoSeparator));
        },
        Option::Some(b) => b,
    };
    if head.len() == 0 {
        return Err(Error::Parse(ParseError::NoRequestLine));
    }
    let lines = text::split_on(&head, &crlf);
    proof {
        text::lemma_deep_index(&lines, 0int);
    }
    let tokens = text::split_on(&lines[0], &space);
    if tokens.len() > 3 {
        return Err(Error::Parse(ParseError::NoRequestLine));
    }
    proof {
        text::lemma_deep_index(&tokens, 0int);
    }
    if tokens[0].len() == 0 {
        return Err(Error::Parse(ParseError::NoMethod));
    }
    let method = match Method::parse_chars(&tokens[0]) {
        Option::None => {
            return Err(Error::Parse(ParseError::InvalidMethod));
        },
        Option::Some(m) => m,
    };
    if tokens.len() < 2 {
        return Err(Error::Parse(ParseError::NoPath));
    }
    proof {
        text::lemma_deep_index(&tokens, 1int);
    }
    if tokens[1].len() == 0 {
        return Err(Error::Parse(ParseError::NoPath));
    }
    if tokens.len() < 3 {
        return Err(Error::Parse(ParseError::NoVersion));
    }
    proof {
        text::lemma_deep_index(&tokens, 2int);
    }
    if tokens[2].len() == 0 {
        return Err(Error::Parse(ParseError::NoVersion));
    }
    let (path_part, query_part) = text::split2_on(&tokens[1], &qmark);
    let ghost had_query = query_part is Some;
    let query_pairs: Vec<(String, String)> = match query_part {
        Option::None => Vec::new(),
        Option::Some(qs) => match parse_query_strict(&qs) {
            Option::None => {
                return Err(Error::Parse(ParseError::InvalidQuery));
            },
            Option::Some(pairs) => pairs,
        },
    };
    proof {
        if !had_query {
            assert(query_pairs.deep_view() =~= Seq::<(Seq<char>, Seq<char>)>::empty());
        }
    }
    let ghost hlines = lines.deep_view().drop_first();
    let mut headers: Vec<Header> = Vec::new();
    let mut i: usize = 1;
    while i < lines.len()
        invariant
            1 <= i <= lines@.len(),
            headers@.len() == i - 1,
            forall|j: int|
                0 <= j < i - 1 ==> spec_header_from(Result::Ok(headers@[j]), hlines[j]),
            forall|j: int| 0 <= j < i - 1 ==> text::spec_split2(hlines[j], ":"@).1 is Some,
        decreases lines@.len() - i,
    {
        proof {
            text::lemma_deep_index(&lines, i as int);
            assert(hlines[i - 1] == lines.deep_view()[i as int]);
        }
        match Header::from_chars(&lines[i]) {
            Result::Err(_) => {
                proof {
                    assert(!spec_headers_ok(hlines));
                }
                return Err(Error::Parse(ParseError::InvalidHeader));
            },
            Result::Ok(h) => {
                headers.push(h);
            },
        }
        i = i + 1;
    }
    proof {
        assert(spec_headers_ok(hlines));
    }
    proof {
        let gl = lines.deep_view();
        assert forall|j: int| 0 <= j < gl.len() - 1 implies spec_header_from(
            Result::Ok(headers@[j]),
            gl[j + 1],
        ) by {
            assert(hlines[j] == gl[j + 1]);
        }
    }
    let body_string = text::string_of(&body_chars);
    let req = Request {
        method,
        path: text::string_of(&path_part),
        path_prams: Vec::new(),
        query: Query(query_pairs),
        headers,
        body: body_string.as_str().as_bytes_vec(),
        address: address.to_owned(),
        raw_data: text::copy_bytes(buffer),
    };
    Ok(req)
}

/// The declared `Content-Length` of a request: the value of the first
/// `Content-Length` header read as a decimal number, zero when it cannot
/// be read, and `None` when the header is absent.
pub open spec fn spec_content_length(hs: Seq<Header>) -> Option<int> {
    match spec_header_index(hs, HeaderType::ContentLength) {
        None => None,
        Some(i) => {
            let v = hs[i].value@;
            Some(
                if v.len() > 0 && text::all_digits(v) && text::spec_dec_value(v) <= u64::MAX {
                    text::spec_dec_value(v)
                } else {
                    0
                },
            )
        },
    }
}

/// Reads the declared `Content-Length` of a list of headers.
pub fn content_length(headers: &crate::header::Headers) -> (r: Option<u64>)
    ensures
        match r {
            Some(n) => spec_content_length(headers.0@) == Some(n as int),
            None => spec_content_length(headers.0@) is None,
        },
{
    proof {
        crate::header::lemma_header_index(headers.0@, HeaderType::ContentLength);
    }
    match headers.index_of(&HeaderType::ContentLength) {
        Option::None => None,
        Option::Some(i) => {
            let chars = text::chars_of(headers.0[i].value.as_str());
            match text::parse_decimal(&chars) {
                Option::None => Some(0),
                Option::Some(n) => Some(n),
            }
        },
    }
}

/// The text of a response head on the wire: the status line, every header
/// (the handler's, then the server defaults, then the computed
/// `Content-Length`), and the blank line.
pub open spec fn spec_response_head(res: Response, defaults: Seq<Header>) -> Seq<char> {
    let hs = res.headers@ + defaults;
    let reason = match res.reason {
        Option::Some(s) => s@,
        Option::None => spec_reason_phrase(res.status as int),
    };
    let cl_line = "Content-Length"@ + ": "@ + text::spec_decimal(res.data@.len() as int);
    let headers_text = if hs.len() == 0 {
        cl_line
    } else {
        crate::header::spec_headers_text(hs) + "\r\n"@ + cl_line
    };
    "HTTP/1.1 "@ + text::spec_decimal(res.status as int) + " "@ + reason + "\r\n"@ + headers_text
        + "\r\n\r\n"@
}

/// Serializes a response: the head per [`spec_response_head`], then the
/// body bytes verbatim.
pub fn response_bytes(res: &Response, default_headers: &Vec<Header>) -> (r: Vec<u8>)
    ensures
        r@ == vstd::utf8::encode_utf8(spec_response_head(*res, default_headers@)) + res.data@,
{
    let mut all = crate::header::clone_headers(&res.headers);
    let mut defaults = crate::header::clone_headers(default_headers);
    all.append(&mut defaults);
    proof {
        assert(all@ =~= res.headers@ + default_headers@);
    }
    let ghost hs = all@;
    let cl_value = crate::text::u64_to_string(res.data.len() as u64);
    let cl = Header::new(HeaderType::ContentLength, cl_value.as_str());
    all.push(cl);
    let mut head = String::new();
    head.append("HTTP/1.1 ");
    let status_text = crate::text::u64_to_string(res.status as u64);
    head.append(status_text.as_str());
    head.append(" ");
    match &res.reason {
        Option::Some(s) => {
            head.append(s.as_str());
        },
        Option::None => {
            let phrase = crate::response::reason_phrase(res.status);
            head.append(phrase.as_str());
        },
    }
    head.append("\r\n");
    let headers_text = crate::header::headers_to_string(&all);
    head.append(headers_text.as_str());
    head.append("\r\n\r\n");
    proof {
        reveal_strlit("Content-Length");
        assert(all@.drop_last() =~= hs);
        assert(all@.last() == cl);
        assert(crate::header::spec_header_line(cl) =~= "Content-Length"@ + ": "@
            + text::spec_decimal(res.data@.len() as int));
        if hs.len() == 0 {
            assert(crate::header::spec_headers_text(all@) == crate::header::spec_header_line(cl));
        }
        assert(head@ =~= spec_response_head(*res, default_headers@));
    }
    let mut out = head.as_str().as_bytes_vec();
    let mut body = text::copy_bytes(&res.data);
    out.append(&mut body);
    proof {
        assert(out@ =~= vstd::utf8::encode_utf8(spec_response_head(*res, default_headers@))
            + res.data@);
    }
    out
}

} // verus!
