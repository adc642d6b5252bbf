//! The decoded request handed to route handlers.
use vstd::prelude::*;
use vstd::utf8::{decode_utf8, valid_utf8};
use crate::headers::HeaderMap;
use crate::text::str_from_utf8;

verus! {

/// A value captured from the request path by a wildcard route.
#[derive(Clone, Debug, Default)]
pub struct Wildcard<T> {
    wildcard: T,
}

impl<T> Wildcard<T> {
    pub closed spec fn spec_value(&self) -> T {
        self.wildcard
    }

    pub fn new(wildcard: T) -> (r: Wildcard<T>)
        ensures
            r.spec_value() == wildcard,
    {
        Wildcard { wildcard }
    }

    pub fn get_wildcard(&self) -> (r: &T)
        ensures
            *r == self.spec_value(),
    {
        &self.wildcard
    }
}

/// Why a request could not be decoded.
#[derive(Clone, Copy, Debug, PartialEq, Eq, Structural)]
pub enum RequestError {
    StatusLineErr,
    HeadersErr,
}

impl RequestError {
    pub open spec fn message_spec(&self) -> Seq<char> {
        match self {
            RequestError::StatusLineErr => "failed to parse status line"@,
            RequestError::HeadersErr => "failed to parse headers"@,
        }
    }

    /// A short description of the error.
    pub fn message(&self) -> (r: &'static str)
        ensures
            r@ == self.message_spec(),
    {
        match self {
            RequestError::StatusLineErr => "failed to parse status line",
            RequestError::HeadersErr => "failed to parse headers",
        }
    }
}

/// A request body, as text when it is valid UTF-8 or as raw bytes.
#[derive(Clone, Debug)]
pub enum BodyType {
    ASCII(String),
    Bytes(Vec<u8>),
}

/// One decoded request: its status line split into method, path and version,
/// its headers, its body and the value a wildcard route captured, if any.
#[derive(Clone, Debug)]
pub struct Request {
    raw_headers: HeaderMap,
    status_line: Vec<String>,
    body: Vec<u8>,
    wildcard: Option<String>,
    is_http2: bool,
}

impl Request {
    pub closed spec fn spec_headers(&self) -> HeaderMap {
        self.raw_headers
    }

    pub closed spec fn spec_status_line(&self) -> Seq<Seq<char>> {
        self.status_line@.map_values(|s: String| s@)
    }

    pub closed spec fn spec_body(&self) -> Seq<u8> {
        self.body@
    }

    pub closed spec fn spec_wildcard(&self) -> Option<Seq<char>> {
        match self.wildcard {
            Some(w) => Some(w@),
            None => None,
        }
    }

    pub closed spec fn spec_http2(&self) -> bool {
        self.is_http2
    }

    pub fn new(
        body: Vec<u8>,
        raw_headers: HeaderMap,
        status_line: Vec<String>,
        wildcard: Option<String>,
    ) -> (r: Request)
        ensures
            r.spec_body() == body@,
            r.spec_headers() == raw_headers,
            r.spec_status_line() == status_line@.map_values(|s: String| s@),
            r.spec_wildcard() == (match wildcard {
                Some(w) => Some(w@),
                None => None::<Seq<char>>,
            }),
            !r.spec_http2(),
    {
        Request { body, raw_headers, status_line, wildcard, is_http2: false }
    }

    /// Attaches the value captured by a wildcard route.
    pub fn set_wildcard(&mut self, w: Option<String>)
        ensures
            final(self).spec_wildcard() == (match w {
                Some(s) => Some(s@),
                None => None::<Seq<char>>,
            }),
            final(self).spec_body() == old(self).spec_body(),
            final(self).spec_headers() == old(self).spec_headers(),
            final(self).spec_status_line() == old(self).spec_status_line(),
            final(self).spec_http2() == old(self).spec_http2(),
    {
        self.wildcard = w;
    }

    /// The body as bytes.
    pub fn get_raw_body(&self) -> (r: &[u8])
        ensures
            r@ == self.spec_body(),
    {
        self.body.as_slice()
    }

    /// The body as text, when it is valid UTF-8.
    pub fn get_parsed_body(&self) -> (r: Option<&str>)
        ensures
            r is Some <==> valid_utf8(self.spec_body()),
            r matches Some(s) ==> s@ == decode_utf8(self.spec_body()),
    {
        str_from_utf8(self.body.as_slice())
    }

    pub fn get_headers(&self) -> (r: &HeaderMap)
        ensures
            *r == self.spec_headers(),
    {
        &self.raw_headers
    }

    /// The status line split into its parts: method, path and version.
    pub fn get_status_line(&self) -> (r: &[String])
        ensures
            r@.map_values(|s: String| s@) == self.spec_status_line(),
    {
        self.status_line.as_slice()
    }

    pub fn get_wildcard(&self) -> (r: Option<&String>)
        ensures
            match r {
                Some(s) => self.spec_wildcard() == Some(s@),
                None => self.spec_wildcard() is None,
            },
    {
        self.wildcard.as_ref()
    }

    pub fn get_http2(&self) -> (r: bool)
        ensures
            r == self.spec_http2(),
    {
        self.is_http2
    }

    pub fn set_http2(self, w: bool) -> (r: Request)
        ensures
            r.spec_http2() == w,
            r.spec_body() == self.spec_body(),
            r.spec_headers() == self.spec_headers(),
            r.spec_status_line() == self.spec_status_line(),
            r.spec_wildcard() == self.spec_wildcard(),
    {
        let mut s = self;
        s.is_http2 = w;
        s
    }
}

} // verus!
