//! HTTP headers: names normalized to a closed set, values kept verbatim,
//! and ordered collections with first-match lookup.

use vstd::prelude::*;

use crate::error::{Error, ParseError};
use crate::text;

verus! {

/// Common HTTP header names.  Anything else is kept verbatim in `Custom`.
#[derive(Debug)]
#[allow(missing_docs)]
pub enum HeaderType {
    Accept,
    AcceptCharset,
    AcceptEncoding,
    AcceptLanguage,
    Connection,
    ContentEncoding,
    ContentLength,
    ContentType,
    Cookie,
    Date,
    Host,
    Location,
    Referer,
    Server,
    SetCookie,
    TransferEncoding,
    Upgrade,
    UserAgent,
    Via,
    XForwardedFor,
    /// Any other header name, kept as it was written.
    Custom(String),
}

/// Equality of header names: recognized names match their own kind, and
/// custom names match by their text.
pub open spec fn name_eq(a: HeaderType, b: HeaderType) -> bool {
    match (a, b) {
        (HeaderType::Custom(x), HeaderType::Custom(y)) => x@ == y@,
        (HeaderType::Custom(_), _) => false,
        (_, HeaderType::Custom(_)) => false,
        (x, y) => x == y,
    }
}

impl Clone for HeaderType {
    fn clone(&self) -> (r: HeaderType)
        ensures
            r == *self,
    {
        match self {
            HeaderType::Accept => HeaderType::Accept,
            HeaderType::AcceptCharset => HeaderType::AcceptCharset,
            HeaderType::AcceptEncoding => HeaderType::AcceptEncoding,
            HeaderType::AcceptLanguage => HeaderType::AcceptLanguage,
            HeaderType::Connection => HeaderType::Connection,
            HeaderType::ContentEncoding => HeaderType::ContentEncoding,
            HeaderType::ContentLength => HeaderType::ContentLength,
            HeaderType::ContentType => HeaderType::ContentType,
            HeaderType::Cookie => HeaderType::Cookie,
            HeaderType::Date => HeaderType::Date,
            HeaderType::Host => HeaderType::Host,
            HeaderType::Location => HeaderType::Location,
            HeaderType::Referer => HeaderType::Referer,
            HeaderType::Server => HeaderType::Server,
            HeaderType::SetCookie => HeaderType::SetCookie,
            HeaderType::TransferEncoding => HeaderType::TransferEncoding,
            HeaderType::Upgrade => HeaderType::Upgrade,
            HeaderType::UserAgent => HeaderType::UserAgent,
            HeaderType::Via => HeaderType::Via,
            HeaderType::XForwardedFor => HeaderType::XForwardedFor,
            HeaderType::Custom(s) => HeaderType::Custom(s.clone()),
        }
    }
}

impl Clone for Header {
    fn clone(&self) -> (r: Header)
        ensures
            r == *self,
    {
        Header { name: self.name.clone(), value: self.value.clone() }
    }
}

impl PartialEq for HeaderType {
    fn eq(&self, other: &HeaderType) -> (r: bool) {
        match (self, other) {
            (HeaderType::Accept, HeaderType::Accept) => true,
            (HeaderType::AcceptCharset, HeaderType::AcceptCharset) => true,
            (HeaderType::AcceptEncoding, HeaderType::AcceptEncoding) => true,
            (HeaderType::AcceptLanguage, HeaderType::AcceptLanguage) => true,
            (HeaderType::Connection, HeaderType::Connection) => true,
            (HeaderType::ContentEncoding, HeaderType::ContentEncoding) => true,
            (HeaderType::ContentLength, HeaderType::ContentLength) => true,
            (HeaderType::ContentType, HeaderType::ContentType) => true,
            (HeaderType::Cookie, HeaderType::Cookie) => true,
            (HeaderType::Date, HeaderType::Date) => true,
            (HeaderType::Host, HeaderType::Host) => true,
            (HeaderType::Location, HeaderType::Location) => true,
            (HeaderType::Referer, HeaderType::Referer) => true,
            (HeaderType::Server, HeaderType::Server) => true,
            (HeaderType::SetCookie, HeaderType::SetCookie) => true,
            (HeaderType::TransferEncoding, HeaderType::TransferEncoding) => true,
            (HeaderType::Upgrade, HeaderType::Upgrade) => true,
            (HeaderType::UserAgent, HeaderType::UserAgent) => true,
            (HeaderType::Via, HeaderType::Via) => true,
            (HeaderType::XForwardedFor, HeaderType::XForwardedFor) => true,
            (HeaderType::Custom(x), HeaderType::Custom(y)) => x.eq(y),
            _ => false,
        }
    }
}

impl vstd::std_specs::cmp::PartialEqSpecImpl for HeaderType {
    open spec fn obeys_eq_spec() -> bool {
        true
    }

    open spec fn eq_spec(&self, other: &HeaderType) -> bool {
        name_eq(*self, *other)
    }
}

impl HeaderType {
    /// The canonical spelling of the header name.
    pub open spec fn spec_name(self) -> Seq<char> {
        match self {
            HeaderType::Accept => "Accept"@,
            HeaderType::AcceptCharset => "Accept-Charset"@,
            HeaderType::AcceptEncoding => "Accept-Encoding"@,
            HeaderType::AcceptLanguage => "Accept-Language"@,
            HeaderType::Connection => "Connection"@,
            HeaderType::ContentEncoding => "Content-Encoding"@,
            HeaderType::ContentLength => "Content-Length"@,
            HeaderType::ContentType => "Content-Type"@,
            HeaderType::Cookie => "Cookie"@,
            HeaderType::Date => "Date"@,
            HeaderType::Host => "Host"@,
            HeaderType::Location => "Location"@,
            HeaderType::Referer => "Referer"@,
            HeaderType::Server => "Server"@,
            HeaderType::SetCookie => "Set-Cookie"@,
            HeaderType::TransferEncoding => "Transfer-Encoding"@,
            HeaderType::Upgrade => "Upgrade"@,
            HeaderType::UserAgent => "User-Agent"@,
            HeaderType::Via => "Via"@,
            HeaderType::XForwardedFor => "X-Forwarded-For"@,
            HeaderType::Custom(s) => s@,
        }
    }

    /// The recognized header name whose lowercase spelling is `s`, if any.
    pub open spec fn spec_recognize(s: Seq<char>) -> Option<HeaderType> {
        let l = text::spec_lower(s);
        if l == "accept"@ {
            Some(HeaderType::Accept)
        } else if l == "accept-charset"@ {
            Some(HeaderType::AcceptCharset)
        } else if l == "accept-encoding"@ {
            Some(HeaderType::AcceptEncoding)
        } else if l == "accept-language"@ {
            Some(HeaderType::AcceptLanguage)
        } else if l == "connection"@ {
            Some(HeaderType::Connection)
        } else if l == "content-encoding"@ {
            Some(HeaderType::ContentEncoding)
        } else if l == "content-length"@ {
            Some(HeaderType::ContentLength)
        } else if l == "content-type"@ {
            Some(HeaderType::ContentType)
        } else if l == "cookie"@ {
            Some(HeaderType::Cookie)
        } else if l == "date"@ {
            Some(HeaderType::Date)
        } else if l == "host"@ {
            Some(HeaderType::Host)
        } else if l == "location"@ {
            Some(HeaderType::Location)
        } else if l == "referer"@ {
            Some(HeaderType::Referer)
        } else if l == "server"@ {
            Some(HeaderType::Server)
        } else if l == "set-cookie"@ {
            Some(HeaderType::SetCookie)
        } else if l == "transfer-encoding"@ {
            Some(HeaderType::TransferEncoding)
        } else if l == "upgrade"@ {
            Some(HeaderType::Upgrade)
        } else if l == "user-agent"@ {
            Some(HeaderType::UserAgent)
        } else if l == "via"@ {
            Some(HeaderType::Via)
        } else if l == "x-forwarded-for"@ {
            Some(HeaderType::XForwardedFor)
        } else {
            None
        }
    }

    /// What [`HeaderType::from_str`] returns for the text `s`.
    pub open spec fn spec_from(r: HeaderType, s: Seq<char>) -> bool {
        match HeaderType::spec_recognize(s) {
            Some(t) => r == t,
            None => r matches HeaderType::Custom(c) && c@ == s,
        }
    }

    /// Normalizes a header name, case-insensitively; an unrecognized name
    /// is kept verbatim.
    pub fn from_str(s: &str) -> (r: HeaderType)
        ensures
            HeaderType::spec_from(r, s@),
    {
        let chars = text::chars_of(s);
        HeaderType::from_chars(&chars)
    }

    /// As [`HeaderType::from_str`], over characters.
    pub fn from_chars(v: &Vec<char>) -> (r: HeaderType)
        ensures
            HeaderType::spec_from(r, v@),
    {
        let l = text::to_lower(v);
        if text::chars_eq_str(&l, "accept") {
            HeaderType::Accept
        } else if text::chars_eq_str(&l, "accept-charset") {
            HeaderType::AcceptCharset
        } else if text::chars_eq_str(&l, "accept-encoding") {
            HeaderType::AcceptEncoding
        } else if text::chars_eq_str(&l, "accept-language") {
            HeaderType::AcceptLanguage
        } else if text::chars_eq_str(&l, "connection") {
            HeaderType::Connection
        } else if text::chars_eq_str(&l, "content-encoding") {
            HeaderType::ContentEncoding
        } else if text::chars_eq_str(&l, "content-length") {
            HeaderType::ContentLength
        } else if text::chars_eq_str(&l, "content-type") {
            HeaderType::ContentType
        } else if text::chars_eq_str(&l, "cookie") {
            HeaderType::Cookie
        } else if text::chars_eq_str(&l, "date") {
            HeaderType::Date
        } else if text::chars_eq_str(&l, "host") {
            HeaderType::Host
        } else if text::chars_eq_str(&l, "location") {
            HeaderType::Location
        } else if text::chars_eq_str(&l, "referer") {
            HeaderType::Referer
        } else if text::chars_eq_str(&l, "server") {
            HeaderType::Server
        } else if text::chars_eq_str(&l, "set-cookie") {
            HeaderType::SetCookie
        } else if text::chars_eq_str(&l, "transfer-encoding") {
            HeaderType::TransferEncoding
        } else if text::chars_eq_str(&l, "upgrade") {
            HeaderType::Upgrade
        } else if text::chars_eq_str(&l, "user-agent") {
            HeaderType::UserAgent
        } else if text::chars_eq_str(&l, "via") {
            HeaderType::Via
        } else if text::chars_eq_str(&l, "x-forwarded-for") {
            HeaderType::XForwardedFor
        } else {
            HeaderType::Custom(text::string_of(v))
        }
    }

    /// Renders the canonical name.
    pub fn name(&self) -> (r: &str)
        ensures
            r@ == self.spec_name(),
    {
        match self {
            HeaderType::Accept => "Accept",
            HeaderType::AcceptCharset => "Accept-Charset",
            HeaderType::AcceptEncoding => "Accept-Encoding",
            HeaderType::AcceptLanguage => "Accept-Language",
            HeaderType::Connection => "Connection",
            HeaderType::ContentEncoding => "Content-Encoding",
            HeaderType::ContentLength => "Content-Length",
            HeaderType::ContentType => "Content-Type",
            HeaderType::Cookie => "Cookie",
            HeaderType::Date => "Date",
            HeaderType::Host => "Host",
            HeaderType::Location => "Location",
            HeaderType::Referer => "Referer",
            HeaderType::Server => "Server",
            HeaderType::SetCookie => "Set-Cookie",
            HeaderType::TransferEncoding => "Transfer-Encoding",
            HeaderType::Upgrade => "Upgrade",
            HeaderType::UserAgent => "User-Agent",
            HeaderType::Via => "Via",
            HeaderType::XForwardedFor => "X-Forwarded-For",
            HeaderType::Custom(s) => s.as_str(),
        }
    }
}

/// One HTTP header: a name and a value.
#[derive(Debug)]
pub struct Header {
    /// Name of the header.
    pub name: HeaderType,
    /// Value of the header.
    pub value: String,
}

/// How one header is written on the wire: `Name: value`.
pub open spec fn spec_header_line(h: Header) -> Seq<char> {
    h.name.spec_name() + ": "@ + h.value@
}

/// What parsing one header line yields: the text before the first `:`,
/// trimmed, as the name, and the text after it, trimmed, as the value; a
/// line without `:` is malformed.
pub open spec fn spec_header_from(r: Result<Header, Error>, s: Seq<char>) -> bool {
    match text::spec_split2(s, ":"@) {
        (_, Option::None) => r matches Err(e) && e matches Error::Parse(
            ParseError::InvalidHeader,
        ),
        (name, Option::Some(value)) => r matches Ok(h) && HeaderType::spec_from(
            h.name,
            text::spec_trim(name),
        ) && h.value@ == text::spec_trim(value),
    }
}

impl Header {
    /// Makes a header from a name and a value.
    pub fn new(name: HeaderType, value: &str) -> (r: Header)
        ensures
            r.name == name,
            r.value@ == value@,
    {
        Header { name, value: value.to_owned() }
    }

    /// Makes a header from a string name and a value; the name is
    /// normalized as by [`HeaderType::from_str`].
    pub fn new_str(name: &str, value: &str) -> (r: Header)
        ensures
            HeaderType::spec_from(r.name, name@),
            r.value@ == value@,
    {
        Header { name: HeaderType::from_str(name), value: value.to_owned() }
    }

    /// Parses a header from a `name: value` line.
    pub fn from_string(header: &str) -> (r: Result<Header, Error>)
        ensures
            spec_header_from(r, header@),
    {
        let chars = text::chars_of(header);
        Header::from_chars(&chars)
    }

    /// As [`Header::from_string`], over characters.
    pub fn from_chars(v: &Vec<char>) -> (r: Result<Header, Error>)
        ensures
            spec_header_from(r, v@),
    {
        let colon: Vec<char> = vec![':'];
        proof {
            reveal_strlit(":");
            assert(colon@ =~= ":"@);
        }
        let (name_part, rest) = text::split2_on(v, &colon);
        match rest {
            Option::None => Err(Error::Parse(ParseError::InvalidHeader)),
            Option::Some(value_part) => {
                let name_trim = text::trim(&name_part);
                let value_trim = text::trim(&value_part);
                Ok(
                    Header {
                        name: HeaderType::from_chars(&name_trim),
                        value: text::string_of(&value_trim),
                    },
                )
            },
        }
    }

    /// The parameters of the header value, as in
    /// `Content-Type: text/html; charset=utf-8`.
    pub fn params(&self) -> (r: HeaderParams)
        ensures
            r.value@ == spec_params_value(self.value@),
            r.params.deep_view() == spec_params(
                text::spec_split(self.value@, ";"@).drop_first(),
            ),
    {
        HeaderParams::new(&self.value)
    }
}

/// The part of a header value before its first `;`.
pub open spec fn spec_params_value(s: Seq<char>) -> Seq<char> {
    text::spec_split(s, ";"@)[0]
}

/// Key and value pairs read from `; key=value` parts, each side trimmed.
/// The first malformed part (without `=`) ends the list.
pub open spec fn spec_params(parts: Seq<Seq<char>>) -> Seq<(Seq<char>, Seq<char>)>
    decreases parts.len(),
{
    if parts.len() == 0 {
        Seq::empty()
    } else {
        match text::spec_split2(parts[0], "="@) {
            (_, Option::None) => Seq::empty(),
            (k, Option::Some(v)) => seq![(text::spec_trim(k), text::spec_trim(v))] + spec_params(
                parts.drop_first(),
            ),
        }
    }
}

/// Collection of headers, in the order they were added.
#[derive(Debug)]
pub struct Headers(pub Vec<Header>);

impl Clone for Headers {
    fn clone(&self) -> (r: Headers)
        ensures
            r.0@ == self.0@,
    {
        Headers(clone_headers(&self.0))
    }
}

/// Copies a list of headers.
#[verifier::loop_isolation(false)]
pub fn clone_headers(v: &Vec<Header>) -> (r: Vec<Header>)
    ensures
        r@ == v@,
{
    let mut r: Vec<Header> = Vec::new();
    let mut i: usize = 0;
    while i < v.len()
        invariant
            i <= v@.len(),
            r@ == v@.take(i as int),
        decreases v@.len() - i,
    {
        r.push(v[i].clone());
        proof {
            assert(r@ =~= v@.take(i + 1));
        }
        i = i + 1;
    }
    proof {
        assert(r@ =~= v@);
    }
    r
}

/// The first index of `hs` holding a header named `name`, if any.
pub open spec fn spec_header_index(hs: Seq<Header>, name: HeaderType) -> Option<int>
    decreases hs.len(),
{
    if hs.len() == 0 {
        None
    } else if name_eq(hs[0].name, name) {
        Some(0)
    } else {
        match spec_header_index(hs.drop_first(), name) {
            None => None,
            Some(i) => Some(i + 1),
        }
    }
}

/// `spec_header_index` finds the least matching index, and `None` exactly
/// when no header matches.
pub proof fn lemma_header_index(hs: Seq<Header>, name: HeaderType)
    ensures
        match spec_header_index(hs, name) {
            Some(i) => 0 <= i < hs.len() && name_eq(hs[i].name, name) && (forall|j: int|
                0 <= j < i ==> !name_eq(hs[j].name, name)),
            None => forall|j: int| 0 <= j < hs.len() ==> !name_eq(hs[j].name, name),
        },
    decreases hs.len(),
{
    if hs.len() > 0 && !name_eq(hs[0].name, name) {
        lemma_header_index(hs.drop_first(), name);
        assert forall|j: int| 1 <= j < hs.len() implies name_eq(hs[j].name, name) == name_eq(
            hs.drop_first()[j - 1].name,
            name,
        ) by {
            assert(hs[j] == hs.drop_first()[j - 1]);
        }
    }
}

/// The first index of `hs` holding a header named `name`, if any.
#[verifier::loop_isolation(false)]
pub fn header_index_of(hs: &Vec<Header>, name: &HeaderType) -> (r: Option<usize>)
    ensures
        match r {
            Some(i) => spec_header_index(hs@, *name) == Some(i as int),
            None => spec_header_index(hs@, *name) is None,
        },
{
    proof {
        lemma_header_index(hs@, *name);
    }
    let mut i: usize = 0;
    while i < hs.len()
        invariant
            i <= hs@.len(),
            forall|j: int| 0 <= j < i ==> !name_eq(hs@[j].name, *name),
            spec_header_index(hs@, *name) matches Some(k) ==> i <= k,
        decreases hs@.len() - i,
    {
        if hs[i].name.eq(name) {
            return Some(i);
        }
        i = i + 1;
    }
    None
}

impl Headers {
    /// The first index holding a header named `name`, if any.
    pub fn index_of(&self, name: &HeaderType) -> (r: Option<usize>)
        ensures
            match r {
                Some(i) => spec_header_index(self.0@, *name) == Some(i as int),
                None => spec_header_index(self.0@, *name) is None,
            },
    {
        header_index_of(&self.0, name)
    }

    /// Whether a header named `name` is present.
    pub fn has(&self, name: &HeaderType) -> (r: bool)
        ensures
            r == (spec_header_index(self.0@, *name) is Some),
    {
        self.index_of(name).is_some()
    }

    /// Appends a header made of `name` and `value`.
    pub fn add(&mut self, name: HeaderType, value: &str)
        ensures
            final(self).0@.len() == old(self).0@.len() + 1,
            final(self).0@.take(old(self).0@.len() as int) == old(self).0@,
            final(self).0@.last().name == name,
            final(self).0@.last().value@ == value@,
    {
        self.0.push(Header::new(name, value));
        proof {
            assert(self.0@.take(self.0@.len() - 1) =~= old(self).0@);
        }
    }

    /// The value of the first header named `name`, if any.
    pub fn get(&self, name: &HeaderType) -> (r: Option<&str>)
        ensures
            match r {
                Some(v) => spec_header_index(self.0@, *name) matches Some(i) && v@
                    == self.0@[i].value@,
                None => spec_header_index(self.0@, *name) is None,
            },
    {
        proof {
            lemma_header_index(self.0@, *name);
        }
        match self.index_of(name) {
            Some(i) => Some(self.0[i].value.as_str()),
            None => None,
        }
    }

    /// The value of the first header named `name`, as a mutable reference.
    pub fn get_mut(&mut self, name: &HeaderType) -> (r: Option<&mut String>)
        ensures
            match r {
                Some(m) => spec_header_index(old(self).0@, *name) matches Some(i) && *m == old(self).0@[i].value && final(self).0@ == old(self).0@.update(
                    i,
                    (Header { name: old(self).0@[i].name, value: *final(m) }),
                ),
                None => spec_header_index(old(self).0@, *name) is None && *final(self) == *old(self),
            },
    {
        proof {
            lemma_header_index(self.0@, *name);
        }
        match self.index_of(name) {
            Some(i) => Some(&mut self.0[i].value),
            None => None,
        }
    }

    /// Appends a header.
    pub fn add_header(&mut self, header: Header)
        ensures
            final(self).0@ == old(self).0@.push(header),
    {
        self.0.push(header);
    }

    /// The first header named `name`, if any.
    pub fn get_header(&self, name: &HeaderType) -> (r: Option<&Header>)
        ensures
            match r {
                Some(h) => spec_header_index(self.0@, *name) matches Some(i) && *h == self.0@[i],
                None => spec_header_index(self.0@, *name) is None,
            },
    {
        proof {
            lemma_header_index(self.0@, *name);
        }
        match self.index_of(name) {
            Some(i) => Some(&self.0[i]),
            None => None,
        }
    }

    /// The first header named `name`, as a mutable reference.
    pub fn get_header_mut(&mut self, name: &HeaderType) -> (r: Option<&mut Header>)
        ensures
            match r {
                Some(m) => spec_header_index(old(self).0@, *name) matches Some(i) && *m == old(self).0@[i] && final(self).0@ == old(self).0@.update(i, *final(m)),
                None => spec_header_index(old(self).0@, *name) is None && *final(self) == *old(self),
            },
    {
        proof {
            lemma_header_index(self.0@, *name);
        }
        match self.index_of(name) {
            Some(i) => Some(&mut self.0[i]),
            None => None,
        }
    }
}

/// The text of a list of headers as written in a response: each line
/// `Name: value`, the lines separated by `\r\n`, with no trailing
/// separator.
pub open spec fn spec_headers_text(hs: Seq<Header>) -> Seq<char>
    decreases hs.len(),
{
    if hs.len() == 0 {
        Seq::empty()
    } else if hs.len() == 1 {
        spec_header_line(hs[0])
    } else {
        spec_headers_text(hs.drop_last()) + "\r\n"@ + spec_header_line(hs.last())
    }
}

/// Renders a list of headers, lines separated by `\r\n`.
#[verifier::loop_isolation(false)]
pub fn headers_to_string(headers: &Vec<Header>) -> (r: String)
    requires
        headers@.len() >= 1,
    ensures
        r@ == spec_headers_text(headers@),
{
    let mut out = String::new();
    let mut i: usize = 0;
    while i < headers.len()
        invariant
            i <= headers@.len(),
            out@ == spec_headers_text(headers@.take(i as int)),
        decreases headers@.len() - i,
    {
        if i > 0 {
            out.append("\r\n");
        }
        out.append(headers[i].name.name());
        out.append(": ");
        out.append(headers[i].value.as_str());
        proof {
            assert(headers@.take(i + 1).drop_last() =~= headers@.take(i as int));
            assert(headers@.take(i + 1).last() == headers@[i as int]);
            if i == 0 {
                assert(out@ =~= spec_headers_text(headers@.take(1int)));
            } else {
                assert(out@ =~= spec_headers_text(headers@.take(i + 1)));
            }
        }
        i = i + 1;
    }
    proof {
        assert(headers@.take(headers@.len() as int) =~= headers@);
    }
    out
}

/// Parameters of a header value: the bare value, and the key-value pairs
/// that follow it after semicolons.
#[derive(Debug, Clone)]
pub struct HeaderParams {
    /// The value of the header, before any parameter.
    pub value: String,
    /// The parameters, in the order they are written.
    pub params: Vec<(String, String)>,
}

/// The first index of `params` holding the key `key`, if any.
pub open spec fn spec_param_index(params: Seq<(Seq<char>, Seq<char>)>, key: Seq<char>) -> Option<
    int,
>
    decreases params.len(),
{
    if params.len() == 0 {
        None
    } else if params[0].0 == key {
        Some(0)
    } else {
        match spec_param_index(params.drop_first(), key) {
            None => None,
            Some(i) => Some(i + 1),
        }
    }
}

/// `spec_param_index` finds the least matching index, and `None` exactly
/// when no entry matches.
pub proof fn lemma_param_index(params: Seq<(Seq<char>, Seq<char>)>, key: Seq<char>)
    ensures
        match spec_param_index(params, key) {
            Some(i) => 0 <= i < params.len() && params[i].0 == key && (forall|j: int|
                0 <= j < i ==> params[j].0 != key),
            None => forall|j: int| 0 <= j < params.len() ==> params[j].0 != key,
        },
    decreases params.len(),
{
    if params.len() > 0 && params[0].0 != key {
        lemma_param_index(params.drop_first(), key);
        assert forall|j: int| 1 <= j < params.len() implies params[j]
            == params.drop_first()[j - 1] by {}
    }
}

impl HeaderParams {
    /// Parses the parameters out of a header value.
    #[verifier::loop_isolation(false)]
    pub fn new(value: &str) -> (r: HeaderParams)
        ensures
            r.value@ == spec_params_value(value@),
            r.params.deep_view() == spec_params(text::spec_split(value@, ";"@).drop_first()),
    {
        let chars = text::chars_of(value);
        let semi: Vec<char> = vec![';'];
        let eq: Vec<char> = vec!['='];
        proof {
            reveal_strlit(";");
            reveal_strlit("=");
            assert(semi@ =~= ";"@);
            assert(eq@ =~= "="@);
        }
        let parts = text::split_on(&chars, &semi);
        let bare = text::string_of(&parts[0]);
        let mut params: Vec<(String, String)> = Vec::new();
        let mut i: usize = 1;
        let mut done = false;
        let ghost tail = parts.deep_view().drop_first();
        proof {
            assert(tail.skip(0int) =~= tail);
        }
        while i < parts.len() && !done
            invariant
                1 <= i <= parts@.len(),
                done ==> params.deep_view() == spec_params(tail),
                !done ==> spec_params(tail) == params.deep_view() + spec_params(
                    tail.skip(i - 1),
                ),
            decreases parts@.len() - i + (if done {
                0int
            } else {
                1int
            }),
        {
            let ghost rest = tail.skip(i - 1);
            proof {
                text::lemma_deep_index(&parts, i as int);
                assert(rest[0] == parts.deep_view()[i as int]);
                assert(rest[0] == parts@[i as int]@);
            }
            let (k, v_opt) = text::split2_on(&parts[i], &eq);
            match v_opt {
                Option::None => {
                    proof {
                        assert(spec_params(rest) =~= Seq::<(Seq<char>, Seq<char>)>::empty());
                        assert(params.deep_view() + spec_params(rest) =~= params.deep_view());
                    }
                    done = true;
                },
                Option::Some(v) => {
                    let kt = text::trim(&k);
                    let vt = text::trim(&v);
                    params.push((text::string_of(&kt), text::string_of(&vt)));
                    proof {
                        assert(rest.drop_first() =~= tail.skip(i as int));
                        assert(params.deep_view() + spec_params(tail.skip(i as int))
                            =~= spec_params(tail));
                    }
                    i = i + 1;
                },
            }
        }
        proof {
            if !done {
                assert(tail.skip(i - 1) =~= Seq::<Seq<char>>::empty());
                assert(params.deep_view() + spec_params(tail.skip(i - 1)) =~= params.deep_view());
            }
        }
        HeaderParams { value: bare, params }
    }

    /// The first index holding the parameter `name`, if any.
    #[verifier::loop_isolation(false)]
    pub fn index_of(&self, name: &str) -> (r: Option<usize>)
        ensures
            match r {
                Some(i) => spec_param_index(self.params.deep_view(), name@) == Some(i as int),
                None => spec_param_index(self.params.deep_view(), name@) is None,
            },
    {
        proof {
            lemma_param_index(self.params.deep_view(), name@);
        }
        let mut i: usize = 0;
        while i < self.params.len()
            invariant
                i <= self.params@.len(),
                forall|j: int| 0 <= j < i ==> self.params.deep_view()[j].0 != name@,
                spec_param_index(self.params.deep_view(), name@) matches Some(k) ==> i <= k,
            decreases self.params@.len() - i,
        {
            proof {
                assert(self.params.deep_view()[i as int] == (
                    self.params@[i as int].0@,
                    self.params@[i as int].1@,
                ));
            }
            if text::str_eq(self.params[i].0.as_str(), name) {
                return Some(i);
            }
            i = i + 1;
        }
        None
    }

    /// Whether the header has the parameter `name`.
    pub fn has(&self, name: &str) -> (r: bool)
        ensures
            r == (spec_param_index(self.params.deep_view(), name@) is Some),
    {
        self.index_of(name).is_some()
    }

    /// The value of the parameter `name`, if it is present.
    pub fn get(&self, name: &str) -> (r: Option<&str>)
        ensures
            match r {
                Some(v) => spec_param_index(self.params.deep_view(), name@) matches Some(i)
                    && v@ == self.params.deep_view()[i].1,
                None => spec_param_index(self.params.deep_view(), name@) is None,
            },
    {
        proof {
            lemma_param_index(self.params.deep_view(), name@);
        }
        match self.index_of(name) {
            Some(i) => {
                proof {
                    assert(self.params.deep_view()[i as int] == (
                        self.params@[i as int].0@,
                        self.params@[i as int].1@,
                    ));
                }
                Some(self.params[i].1.as_str())
            },
            None => None,
        }
    }
}

} // verus!
