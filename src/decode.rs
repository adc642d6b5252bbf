//! The request decoder: turns the bytes read so far from a connection into a
//! request, a request for more bytes, or a parse error.
use vstd::prelude::*;
use vstd::utf8::{decode_utf8, valid_utf8, decode_utf8_encode_utf8};
use crate::bytes::{
    bytes_equal, copy_range, decimal, find, find_from, fold_case, lemma_digits_nonneg,
    lemma_find_from_extend, lemma_find_from_prefix, lemma_find_from_sound, lemma_fold_idempotent,
    is_space, is_space_byte, parse_decimal, to_lower, trim, trim_bytes,
};
use crate::headers::{name_key, HeaderMap};
use crate::request::{Request, RequestError};
use crate::text::string_from_utf8;

verus! {

pub open spec fn crlf() -> Seq<u8> {
    seq![13u8, 10u8]
}

pub open spec fn blank_line() -> Seq<u8> {
    seq![13u8, 10u8, 13u8, 10u8]
}

pub open spec fn colon() -> Seq<u8> {
    seq![58u8]
}

/// `content-length`, the key under which the body length is looked up.
pub open spec fn content_length_key() -> Seq<u8> {
    seq![99u8, 111, 110, 116, 101, 110, 116, 45, 108, 101, 110, 103, 116, 104]
}

/// The first index from `i` on that does not hold white space.
pub open spec fn skip_space(s: Seq<u8>, i: int) -> int
    decreases s.len() - i,
{
    if 0 <= i < s.len() && is_space(s[i]) {
        skip_space(s, i + 1)
    } else {
        i
    }
}

/// The first index from `i` on that holds white space, or the end.
pub open spec fn word_end(s: Seq<u8>, i: int) -> int
    decreases s.len() - i,
{
    if 0 <= i < s.len() && !is_space(s[i]) {
        word_end(s, i + 1)
    } else {
        i
    }
}

/// The words of `s` from `i` on: the maximal runs of bytes that are not
/// white space.
pub open spec fn words(s: Seq<u8>, i: int) -> Seq<Seq<u8>>
    decreases s.len() - i,
{
    let a = skip_space(s, i);
    let b = word_end(s, a);
    if i < 0 || a < i || a >= s.len() || b <= a || b > s.len() {
        Seq::empty()
    } else {
        seq![s.subrange(a, b)] + words(s, b)
    }
}

/// The three parts of a status line `METHOD PATH VERSION`, split on white
/// space; each part must be valid UTF-8.
pub open spec fn status_parts(line: Seq<u8>) -> Option<Seq<Seq<u8>>> {
    let w = words(line, 0);
    if w.len() == 3 && valid_utf8(w[0]) && valid_utf8(w[1]) && valid_utf8(w[2]) {
        Some(w)
    } else {
        None
    }
}

/// One header line `name: value`: the name lower-cased, the value trimmed,
/// both valid UTF-8.
pub open spec fn header_line(line: Seq<u8>) -> Option<(Seq<u8>, Seq<u8>)> {
    match find_from(line, 0, colon()) {
        None => None,
        Some(c) => {
            let name = fold_case(line.subrange(0, c));
            let value = trim(line.subrange(c + 1, line.len() as int));
            if valid_utf8(name) && valid_utf8(value) {
                Some((name, value))
            } else {
                None
            }
        },
    }
}

/// The header entries of a block of CRLF-terminated lines, from `pos` on;
/// `None` when a line is malformed.
pub open spec fn header_entries(s: Seq<u8>, pos: int) -> Option<Seq<(Seq<u8>, Seq<u8>)>>
    decreases s.len() - pos,
{
    if pos < 0 || pos >= s.len() {
        Some(Seq::empty())
    } else {
        match find_from(s, pos, crlf()) {
            None => None,
            Some(i) => if i < pos || i + 2 > s.len() {
                None
            } else {
                match header_line(s.subrange(pos, i)) {
                    None => None,
                    Some(e) => match header_entries(s, i + 2) {
                        None => None,
                        Some(rest) => Some(seq![e] + rest),
                    },
                }
            },
        }
    }
}

/// The value of the last entry named `key`: a repeated header overwrites.
pub open spec fn last_value(entries: Seq<(Seq<u8>, Seq<u8>)>, key: Seq<u8>) -> Option<Seq<u8>>
    decreases entries.len(),
{
    if entries.len() == 0 {
        None
    } else if entries.last().0 == key {
        Some(entries.last().1)
    } else {
        last_value(entries.drop_last(), key)
    }
}

/// The text of an optional UTF-8 value.
pub open spec fn value_text(v: Option<Seq<u8>>) -> Option<Seq<char>> {
    match v {
        Some(b) => Some(decode_utf8(b)),
        None => None,
    }
}

/// The body length a header list announces: 0 without `Content-Length`,
/// `None` when its value is not a decimal number that fits in `usize`.
pub open spec fn body_len(entries: Seq<(Seq<u8>, Seq<u8>)>) -> Option<int> {
    match last_value(entries, content_length_key()) {
        None => Some(0),
        Some(v) => decimal(v),
    }
}

/// What the bytes received so far amount to.
pub enum DecodeSpec {
    /// More bytes are needed.
    Partial,
    /// A whole request: status-line parts, header entries, body, and the
    /// number of bytes it took.
    Complete(Seq<Seq<u8>>, Seq<(Seq<u8>, Seq<u8>)>, Seq<u8>, int),
    Invalid(RequestError),
}

/// The meaning of a buffer that starts with a request.
pub open spec fn decode_spec(buf: Seq<u8>) -> DecodeSpec {
    match find_from(buf, 0, crlf()) {
        None => DecodeSpec::Partial,
        Some(le) => match status_parts(buf.subrange(0, le)) {
            None => DecodeSpec::Invalid(RequestError::StatusLineErr),
            Some(parts) => match find_from(buf, le, blank_line()) {
                None => DecodeSpec::Partial,
                Some(he) => match header_entries(buf.subrange(le + 2, he + 2), 0) {
                    None => DecodeSpec::Invalid(RequestError::HeadersErr),
                    Some(entries) => match body_len(entries) {
                        None => DecodeSpec::Invalid(RequestError::HeadersErr),
                        Some(n) => if he + 4 + n <= buf.len() {
                            DecodeSpec::Complete(
                                parts,
                                entries,
                                buf.subrange(he + 4, he + 4 + n),
                                he + 4 + n,
                            )
                        } else {
                            DecodeSpec::Partial
                        },
                    },
                },
            },
        },
    }
}

/// The outcome of decoding the bytes received so far.
pub enum Decoded {
    /// The request is not complete yet: read more bytes and decode again.
    Partial,
    /// The request, and how many bytes of the buffer it took.
    Complete(Request, usize),
    Invalid(RequestError),
}

/// A request holds exactly the decoded parts, entries and body.
pub open spec fn request_matches(
    req: Request,
    parts: Seq<Seq<u8>>,
    entries: Seq<(Seq<u8>, Seq<u8>)>,
    body: Seq<u8>,
) -> bool {
    &&& req.spec_body() == body
    &&& req.spec_status_line() == parts.map_values(|p: Seq<u8>| decode_utf8(p))
    &&& req.spec_wildcard() is None
    &&& !req.spec_http2()
    &&& req.spec_headers().wf()
    &&& forall|q: Seq<char>|
        #[trigger] req.spec_headers().spec_get(q) == value_text(last_value(entries, name_key(q)))
}

pub open spec fn decoded_matches(r: Decoded, s: DecodeSpec) -> bool {
    match (r, s) {
        (Decoded::Partial, DecodeSpec::Partial) => true,
        (Decoded::Invalid(e), DecodeSpec::Invalid(f)) => e == f,
        (Decoded::Complete(req, n), DecodeSpec::Complete(parts, entries, body, m)) => n == m
            && request_matches(req, parts, entries, body),
        _ => false,
    }
}

proof fn lemma_word_end(s: Seq<u8>, i: int)
    requires
        0 <= i <= s.len(),
    ensures
        i <= word_end(s, i) <= s.len(),
        i < s.len() && !is_space(s[i]) ==> i < word_end(s, i),
    decreases s.len() - i,
{
    if 0 <= i < s.len() && !is_space(s[i]) {
        lemma_word_end(s, i + 1);
    }
}

/// Splits `line` into its words.
fn split_words(line: &[u8]) -> (r: Vec<Vec<u8>>)
    ensures
        r@.map_values(|w: Vec<u8>| w@) == words(line@, 0),
{
    let n = line.len();
    let mut out: Vec<Vec<u8>> = Vec::new();
    let mut pos: usize = 0;
    proof {
        assert(Seq::<Seq<u8>>::empty() + words(line@, 0) =~= words(line@, 0));
    }
    while pos < n
        invariant
            pos <= n,
            n == line@.len(),
            words(line@, 0) == out@.map_values(|w: Vec<u8>| w@) + words(line@, pos as int),
        decreases n - pos,
    {
        let mut a = pos;
        while a < n && is_space_byte(line[a])
            invariant
                pos <= a <= n,
                n == line@.len(),
                skip_space(line@, pos as int) == skip_space(line@, a as int),
            decreases n - a,
        {
            a = a + 1;
        }
        if a == n {
            proof {
                assert(words(line@, pos as int) =~= Seq::<Seq<u8>>::empty());
                assert(out@.map_values(|w: Vec<u8>| w@) + Seq::<Seq<u8>>::empty() =~= out@.map_values(
                    |w: Vec<u8>| w@,
                ));
            }
            return out;
        }
        let mut b = a;
        while b < n && !is_space_byte(line[b])
            invariant
                a <= b <= n,
                n == line@.len(),
                word_end(line@, a as int) == word_end(line@, b as int),
            decreases n - b,
        {
            b = b + 1;
        }
        proof {
            lemma_word_end(line@, a as int);
        }
        let w = copy_range(line, a, b);
        let ghost before = out@.map_values(|w: Vec<u8>| w@);
        out.push(w);
        proof {
            assert(out@.map_values(|w: Vec<u8>| w@) =~= before.push(line@.subrange(a as int, b as int)));
            assert(words(line@, pos as int) == seq![line@.subrange(a as int, b as int)] + words(
                line@,
                b as int,
            ));
            assert(before + (seq![line@.subrange(a as int, b as int)] + words(line@, b as int))
                =~= before.push(line@.subrange(a as int, b as int)) + words(line@, b as int));
        }
        pos = b;
    }
    proof {
        assert(words(line@, pos as int) =~= Seq::<Seq<u8>>::empty());
        assert(out@.map_values(|w: Vec<u8>| w@) + Seq::<Seq<u8>>::empty() =~= out@.map_values(
            |w: Vec<u8>| w@,
        ));
    }
    out
}

fn parse_status_line(line: &[u8]) -> (r: Option<Vec<String>>)
    ensures
        match r {
            Some(v) => status_parts(line@) matches Some(p) && v@.map_values(|s: String| s@)
                == p.map_values(|x: Seq<u8>| decode_utf8(x)),
            None => status_parts(line@) is None,
        },
{
    let mut w = split_words(line);
    if w.len() != 3 {
        return None;
    }
    let ghost gw = w@.map_values(|x: Vec<u8>| x@);
    assert(gw[0] == w@[0]@ && gw[1] == w@[1]@ && gw[2] == w@[2]@);
    let c = w.pop().unwrap();
    let b = w.pop().unwrap();
    let a = w.pop().unwrap();
    let sa = match string_from_utf8(a) {
        Some(s) => s,
        None => return None,
    };
    let sb = match string_from_utf8(b) {
        Some(s) => s,
        None => return None,
    };
    let sc = match string_from_utf8(c) {
        Some(s) => s,
        None => return None,
    };
    let mut v: Vec<String> = Vec::new();
    v.push(sa);
    v.push(sb);
    v.push(sc);
    assert(v@.map_values(|s: String| s@) =~= gw.map_values(|x: Seq<u8>| decode_utf8(x)));
    Some(v)
}

pub proof fn lemma_last_value_push(
    entries: Seq<(Seq<u8>, Seq<u8>)>,
    e: (Seq<u8>, Seq<u8>),
    key: Seq<u8>,
)
    ensures
        last_value(entries.push(e), key) == if e.0 == key {
            Some(e.1)
        } else {
            last_value(entries, key)
        },
{
    assert(entries.push(e).drop_last() =~= entries);
}

/// Parses a block of CRLF-terminated header lines.
fn parse_header_block(b: &[u8]) -> (r: Option<(HeaderMap, Option<Vec<u8>>)>)
    ensures
        match r {
            Some((m, cl)) => header_entries(b@, 0) matches Some(entries) && m.wf() && (forall|
                q: Seq<char>,
            |
                #[trigger] m.spec_get(q) == value_text(last_value(entries, name_key(q))))
                && match cl {
                Some(v) => last_value(entries, content_length_key()) == Some(v@),
                None => last_value(entries, content_length_key()) is None,
            },
            None => header_entries(b@, 0) is None,
        },
{
    // "\r\n", ":" and "content-length"
    let crlf_v: Vec<u8> = vec![13u8, 10u8];
    let colon_v: Vec<u8> = vec![58u8];
    let cl_key: Vec<u8> = vec![99u8, 111, 110, 116, 101, 110, 116, 45, 108, 101, 110, 103, 116, 104];
    assert(crlf_v@ == crlf());
    assert(colon_v@ == colon());
    assert(cl_key@ == content_length_key());
    let nb = b.len();
    let mut pos: usize = 0;
    let mut headers = HeaderMap::new();
    let mut cl: Option<Vec<u8>> = None;
    let ghost mut done: Seq<(Seq<u8>, Seq<u8>)> = Seq::empty();
    proof {
        if let Some(r) = header_entries(b@, 0) {
            assert(done + r =~= r);
        }
    }
    while pos < nb
        invariant
            pos <= nb,
            nb == b@.len(),
            crlf_v@ == crlf(),
            colon_v@ == colon(),
            cl_key@ == content_length_key(),
            header_entries(b@, 0) == match header_entries(b@, pos as int) {
                Some(r) => Some(done + r),
                None => None::<Seq<(Seq<u8>, Seq<u8>)>>,
            },
            headers.wf(),
            forall|q: Seq<char>|
                #[trigger] headers.spec_get(q) == value_text(last_value(done, name_key(q))),
            match cl {
                Some(v) => last_value(done, content_length_key()) == Some(v@),
                None => last_value(done, content_length_key()) is None,
            },
        decreases nb - pos,
    {
        let i = match find(b, pos, crlf_v.as_slice()) {
            Some(i) => i,
            None => return None,
        };
        proof {
            lemma_find_from_sound(b@, pos as int, crlf());
        }
        let line = copy_range(b, pos, i);
        let c = match find(line.as_slice(), 0, colon_v.as_slice()) {
            Some(c) => c,
            None => return None,
        };
        proof {
            lemma_find_from_sound(line@, 0, colon());
        }
        let raw_name = copy_range(line.as_slice(), 0, c);
        let name = to_lower(raw_name.as_slice());
        let raw_value = copy_range(line.as_slice(), c + 1, line.len());
        let value = trim_bytes(raw_value.as_slice());
        let ghost e = (name@, value@);
        assert(header_line(b@.subrange(pos as int, i as int)) == if valid_utf8(name@) && valid_utf8(
            value@,
        ) {
            Some(e)
        } else {
            None::<(Seq<u8>, Seq<u8>)>
        });
        let is_cl = bytes_equal(name.as_slice(), cl_key.as_slice());
        if is_cl {
            cl = Some(copy_range(value.as_slice(), 0, value.len()));
            assert(value@.subrange(0, value@.len() as int) =~= value@);
        }
        let ns = match string_from_utf8(name) {
            Some(s) => s,
            None => return None,
        };
        let vs = match string_from_utf8(value) {
            Some(s) => s,
            None => return None,
        };
        proof {
            decode_utf8_encode_utf8(e.0);
            lemma_fold_idempotent(b@.subrange(pos as int, i as int).subrange(0, c as int));
            assert(name_key(ns@) == e.0);
        }
        headers.set(ns.as_str(), vs.as_str());
        proof {
            let d2 = done.push(e);
            assert forall|q: Seq<char>|
                #[trigger] headers.spec_get(q) == value_text(last_value(d2, name_key(q))) by {
                lemma_last_value_push(done, e, name_key(q));
            }
            lemma_last_value_push(done, e, content_length_key());
            if let Some(r) = header_entries(b@, i + 2) {
                assert(done + (seq![e] + r) =~= d2 + r);
            }
            done = d2;
        }
        pos = i + 2;
    }
    proof {
        assert(done + Seq::<(Seq<u8>, Seq<u8>)>::empty() =~= done);
    }
    Some((headers, cl))
}

/// Decodes a request from the bytes received so far. `Partial` means that
/// the status line, the header block or the body announced by
/// `Content-Length` is not complete yet.
pub fn decode(buf: &[u8]) -> (r: Decoded)
    ensures
        decoded_matches(r, decode_spec(buf@)),
{
    // "\r\n" and "\r\n\r\n"
    let crlf_v: Vec<u8> = vec![13u8, 10u8];
    let blank_v: Vec<u8> = vec![13u8, 10u8, 13u8, 10u8];
    assert(crlf_v@ == crlf());
    assert(blank_v@ == blank_line());
    let _len = buf.len();
    let le = match find(buf, 0, crlf_v.as_slice()) {
        Some(le) => le,
        None => return Decoded::Partial,
    };
    proof {
        lemma_find_from_sound(buf@, 0, crlf());
    }
    let line = copy_range(buf, 0, le);
    let status = match parse_status_line(line.as_slice()) {
        Some(v) => v,
        None => return Decoded::Invalid(RequestError::StatusLineErr),
    };
    let he = match find(buf, le, blank_v.as_slice()) {
        Some(he) => he,
        None => return Decoded::Partial,
    };
    proof {
        lemma_find_from_sound(buf@, le as int, blank_line());
        assert(buf@.subrange(he as int, he + 4) == blank_line());
        assert(buf@[he + 1] == 10u8);
    }
    let block = copy_range(buf, le + 2, he + 2);
    let (headers, cl) = match parse_header_block(block.as_slice()) {
        Some(x) => x,
        None => return Decoded::Invalid(RequestError::HeadersErr),
    };
    let n: usize = match cl {
        None => 0,
        Some(v) => match parse_decimal(v.as_slice()) {
            Some(n) => n,
            None => return Decoded::Invalid(RequestError::HeadersErr),
        },
    };
    if n > buf.len() - (he + 4) {
        return Decoded::Partial;
    }
    let body = copy_range(buf, he + 4, he + 4 + n);
    let req = Request::new(body, headers, status, None);
    Decoded::Complete(req, he + 4 + n)
}

/// The most bytes a request may take; a connection that sends more without
/// completing one is answered with an error.
pub const MAX_REQUEST_LEN: usize = 1048576;

/// What to do after a read from a connection.
pub enum ReadStep {
    /// Read more bytes and decide again.
    ReadMore,
    /// The request is complete.
    Request(Request),
    /// Answer with this error and close the connection.
    Reject(RequestError),
}

/// Decides, from the bytes read so far and whether the peer has stopped
/// sending, whether to read on, serve a request or reject the connection.
/// An incomplete request is rejected once the peer is done or the buffer has
/// reached `MAX_REQUEST_LEN` bytes: as a status-line error while the status
/// line is unfinished, else as a header error.
pub fn read_step(buf: &[u8], closed: bool) -> (r: ReadStep)
    ensures
        match decode_spec(buf@) {
            DecodeSpec::Complete(parts, entries, body, _) => r matches ReadStep::Request(req)
                && request_matches(req, parts, entries, body),
            DecodeSpec::Invalid(e) => r == ReadStep::Reject(e),
            DecodeSpec::Partial => if closed || buf@.len() >= MAX_REQUEST_LEN {
                r == ReadStep::Reject(
                    if find_from(buf@, 0, crlf()) is None {
                        RequestError::StatusLineErr
                    } else {
                        RequestError::HeadersErr
                    },
                )
            } else {
                r is ReadMore
            },
        },
{
    match decode(buf) {
        Decoded::Complete(req, _) => ReadStep::Request(req),
        Decoded::Invalid(e) => ReadStep::Reject(e),
        Decoded::Partial => {
            if closed || buf.len() >= MAX_REQUEST_LEN {
                let crlf_v: Vec<u8> = vec![13u8, 10u8];
                assert(crlf_v@ == crlf());
                if find(buf, 0, crlf_v.as_slice()).is_none() {
                    ReadStep::Reject(RequestError::StatusLineErr)
                } else {
                    ReadStep::Reject(RequestError::HeadersErr)
                }
            } else {
                ReadStep::ReadMore
            }
        },
    }
}

/// Bytes that arrive after a complete request do not change how it decodes:
/// the request, its body of exactly `Content-Length` bytes and the count of
/// bytes it took are the same however the stream was cut into reads.
pub proof fn lemma_decode_extend(buf: Seq<u8>, more: Seq<u8>)
    requires
        decode_spec(buf) is Complete,
    ensures
        decode_spec(buf + more) == decode_spec(buf),
        decode_spec(buf) matches DecodeSpec::Complete(parts, entries, body, n) && body_len(
            entries,
        ) == Some(body.len() as int) && n <= buf.len(),
{
    let all = buf + more;
    let d = decode_spec(buf);
    let le = find_from(buf, 0, crlf())->Some_0;
    lemma_find_from_extend(buf, more, 0, crlf());
    lemma_find_from_sound(buf, 0, crlf());
    assert(all.subrange(0, le) =~= buf.subrange(0, le));
    let he = find_from(buf, le, blank_line())->Some_0;
    lemma_find_from_extend(buf, more, le, blank_line());
    lemma_find_from_sound(buf, le, blank_line());
    assert(all.subrange(le + 2, he + 2) =~= buf.subrange(le + 2, he + 2));
    let entries = header_entries(buf.subrange(le + 2, he + 2), 0)->Some_0;
    if let Some(v) = last_value(entries, content_length_key()) {
        lemma_digits_nonneg(v);
    }
    let n = body_len(entries)->Some_0;
    assert(all.subrange(he + 4, he + 4 + n) =~= buf.subrange(he + 4, he + 4 + n));
}

/// Until every byte of a request has arrived, its bytes decode as
/// `Partial`: a reader that appends each segment it receives and decodes
/// again gets the request, with its whole body, exactly once the last byte is
/// in.
pub proof fn lemma_decode_prefix(buf: Seq<u8>, k: int)
    requires
        decode_spec(buf) matches DecodeSpec::Complete(_, _, _, n) && 0 <= k < n,
    ensures
        decode_spec(buf.subrange(0, k)) is Partial,
{
    let p = buf.subrange(0, k);
    lemma_decode_extend(buf, Seq::empty());
    lemma_find_from_sound(buf, 0, crlf());
    lemma_find_from_prefix(buf, k, 0, crlf());
    let le = find_from(buf, 0, crlf())->Some_0;
    if le + 2 <= k {
        assert(p.subrange(0, le) =~= buf.subrange(0, le));
        lemma_find_from_sound(buf, le, blank_line());
        lemma_find_from_prefix(buf, k, le, blank_line());
        let he = find_from(buf, le, blank_line())->Some_0;
        if he + 4 <= k {
            assert(p.subrange(le + 2, he + 2) =~= buf.subrange(le + 2, he + 2));
        }
    }
}

/// The body length that a request head announces, when `head` is a whole
/// head (status line, header lines and the blank line that ends it, and
/// nothing after) that decodes without error.
pub open spec fn head_body_len(head: Seq<u8>) -> Option<int> {
    match find_from(head, 0, crlf()) {
        None => None,
        Some(le) => if status_parts(head.subrange(0, le)) is Some && find_from(
            head,
            le,
            blank_line(),
        ) == Some(head.len() - 4) {
            match header_entries(head.subrange(le + 2, head.len() - 2), 0) {
                Some(entries) => body_len(entries),
                None => None,
            }
        } else {
            None
        },
    }
}

/// A request head that announces `n` body bytes, followed by at least `n`
/// more bytes, decodes to a request whose body is exactly the `n` bytes
/// after the head, whatever follows them.
pub proof fn lemma_decode_head(head: Seq<u8>, rest: Seq<u8>)
    requires
        head_body_len(head) is Some,
        head_body_len(head)->Some_0 <= rest.len(),
    ensures
        decode_spec(head + rest) matches DecodeSpec::Complete(_, _, body, k) && body
            == rest.subrange(0, head_body_len(head)->Some_0) && k == head.len()
            + head_body_len(head)->Some_0,
{
    let all = head + rest;
    let le = find_from(head, 0, crlf())->Some_0;
    let he = head.len() - 4;
    lemma_find_from_sound(head, 0, crlf());
    lemma_find_from_sound(head, le, blank_line());
    lemma_find_from_extend(head, rest, 0, crlf());
    lemma_find_from_extend(head, rest, le, blank_line());
    assert(all.subrange(0, le) =~= head.subrange(0, le));
    assert(all.subrange(le + 2, he + 2) =~= head.subrange(le + 2, head.len() - 2));
    let entries = header_entries(head.subrange(le + 2, head.len() - 2), 0)->Some_0;
    if let Some(v) = last_value(entries, content_length_key()) {
        lemma_digits_nonneg(v);
    }
    let n = body_len(entries)->Some_0;
    assert(all.subrange(he + 4, he + 4 + n) =~= rest.subrange(0, n));
}

} // verus!
