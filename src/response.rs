//! The response a handler produces and its serialisation to wire bytes.
use vstd::prelude::*;
use vstd::utf8::encode_utf8;
use crate::bytes::{append_bytes, trim, trim_bytes};
use crate::decode::crlf;
use crate::headers::HeaderMap;

verus! {

/// `": "`, between a header's name and its value.
pub open spec fn name_sep() -> Seq<u8> {
    seq![58u8, 32u8]
}

/// The header block: one `Name: Value\r\n` line per entry, in entry order.
pub open spec fn header_lines(m: Seq<(Seq<char>, Seq<char>)>) -> Seq<u8>
    decreases m.len(),
{
    if m.len() == 0 {
        Seq::empty()
    } else {
        header_lines(m.drop_last()) + encode_utf8(m.last().0) + name_sep() + encode_utf8(m.last().1)
            + crlf()
    }
}

/// A response on the wire: status line (which carries its own CRLF), header
/// lines, a blank line, then the body.
pub open spec fn wire(status: Seq<u8>, m: Seq<(Seq<char>, Seq<char>)>, body: Seq<u8>) -> Seq<u8> {
    status + header_lines(m) + crlf() + body
}

/// A response: status line, headers, optional body and MIME type.
#[derive(Clone, Debug)]
pub struct Response {
    pub headers: HeaderMap,
    /// The status line as sent, ending in CRLF once set.
    pub status_line: Vec<u8>,
    /// Absent only when the handler closes the connection itself.
    pub body: Option<Vec<u8>>,
    /// The explicit MIME type; when absent it is inferred from the body.
    pub mime: Option<String>,
    pub http2: bool,
}

impl Response {
    /// An empty response: no headers, no status line, no body, no MIME type.
    pub fn new() -> (r: Response)
        ensures
            r.headers.wf(),
            r.headers@.len() == 0,
            r.status_line@.len() == 0,
            r.body is None,
            r.mime is None,
            !r.http2,
    {
        Response {
            headers: HeaderMap::new(),
            status_line: Vec::new(),
            body: None,
            mime: None,
            http2: false,
        }
    }

    pub fn headers(self, headers: HeaderMap) -> (r: Response)
        ensures
            r.headers == headers,
            r.status_line == self.status_line,
            r.body == self.body,
            r.mime == self.mime,
            r.http2 == self.http2,
    {
        let mut s = self;
        s.headers = headers;
        s
    }

    /// Sets the status line: `line` without surrounding white space, then
    /// CRLF.
    pub fn status_line(self, line: &str) -> (r: Response)
        ensures
            r.status_line@ == trim(encode_utf8(line@)) + crlf(),
            r.headers == self.headers,
            r.body == self.body,
            r.mime == self.mime,
            r.http2 == self.http2,
    {
        let mut v = trim_bytes(line.as_bytes());
        v.push(13u8);
        v.push(10u8);
        let mut s = self;
        s.status_line = v;
        s
    }

    pub fn body(self, body: Vec<u8>) -> (r: Response)
        ensures
            r.body == Some(body),
            r.headers == self.headers,
            r.status_line == self.status_line,
            r.mime == self.mime,
            r.http2 == self.http2,
    {
        let mut s = self;
        s.body = Some(body);
        s
    }

    pub fn mime(self, mime: &str) -> (r: Response)
        ensures
            r.mime matches Some(m) && m@ == mime@,
            r.headers == self.headers,
            r.status_line == self.status_line,
            r.body == self.body,
            r.http2 == self.http2,
    {
        let mut s = self;
        s.mime = Some(mime.to_owned());
        s
    }

    /// The bytes sent for this response; `None` when it has no body.
    pub fn send(&self) -> (r: Option<Vec<u8>>)
        ensures
            match self.body {
                Some(b) => r matches Some(w) && w@ == wire(self.status_line@, self.headers@, b@),
                None => r is None,
            },
    {
        let body = match &self.body {
            Some(b) => b,
            None => return None,
        };
        let mut out: Vec<u8> = Vec::new();
        append_bytes(&mut out, self.status_line.as_slice());
        let n = self.headers.len();
        let mut i: usize = 0;
        // ": " and "\r\n"
        let sep: Vec<u8> = vec![58u8, 32u8];
        let end: Vec<u8> = vec![13u8, 10u8];
        assert(self.headers@.subrange(0, 0) =~= Seq::<(Seq<char>, Seq<char>)>::empty());
        while i < n
            invariant
                i <= n,
                n == self.headers@.len(),
                sep@ == name_sep(),
                end@ == crlf(),
                out@ == self.status_line@ + header_lines(self.headers@.subrange(0, i as int)),
            decreases n - i,
        {
            let (k, v) = self.headers.entry(i);
            append_bytes(&mut out, k.as_bytes());
            append_bytes(&mut out, sep.as_slice());
            append_bytes(&mut out, v.as_bytes());
            append_bytes(&mut out, end.as_slice());
            proof {
                let m = self.headers@.subrange(0, i + 1);
                assert(m.drop_last() =~= self.headers@.subrange(0, i as int));
                assert(out@ =~= self.status_line@ + header_lines(m));
            }
            i = i + 1;
        }
        append_bytes(&mut out, end.as_slice());
        append_bytes(&mut out, body.as_slice());
        assert(self.headers@.subrange(0, n as int) =~= self.headers@);
        assert(out@ =~= wire(self.status_line@, self.headers@, body@));
        Some(out)
    }
}

} // verus!
