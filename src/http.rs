//! The request pipeline after decoding: dispatch to a route or to the static
//! file fallback, and the enrichment of a response before it is sent
//! (content type, extra headers, server identity, compression).
use vstd::prelude::*;
use vstd::string::StringExecFns;
use vstd::utf8::{decode_utf8, encode_utf8, valid_utf8};
use crate::bytes::{
    bytes_equal, copy_range, find, find_from, lemma_find_from_sound, trim, trim_bytes,
};
use crate::config::{
    is_prefix, is_prefix_of, normalize, normalize_path, ok_status, ok_status_line, path_bytes,
    route_index, handler_arg, response_of, total_handlers, Config, Method, Reply, Route,
};
use crate::headers::{name_key, HeaderMap};
use crate::request::{Request, RequestError};
use crate::response::Response;
use crate::text::string_from_utf8;

verus! {

/// The MIME type that `infer` reads from the leading bytes of a body.
pub uninterp spec fn sniffed_mime(b: Seq<u8>) -> Option<Seq<char>>;

/// The gzip stream that `flate2` produces for a body at the default level.
pub uninterp spec fn gzip_of(b: Seq<u8>) -> Seq<u8>;

/// The first MIME type that `mime_guess` lists for a path's extension.
pub uninterp spec fn guessed_mime(p: Seq<char>) -> Option<Seq<char>>;

/// Whether std's `Path::extension` finds an extension in a path.
pub uninterp spec fn path_has_extension(p: Seq<char>) -> bool;

/// Relies on `infer::get`: the type whose signature matches the leading
/// bytes of `b`, if any, as a MIME string.
#[verifier::external_body]
fn sniff_mime(b: &[u8]) -> (r: Option<String>)
    ensures
        match r {
            Some(s) => sniffed_mime(b@) == Some(s@),
            None => sniffed_mime(b@) is None,
        },
{
    infer::get(b).map(|t| t.mime_type().to_string())
}

/// Relies on `flate2::write::GzEncoder` at the default level: the gzip
/// stream of `b`. The encoder writes into a `Vec`, whose writes never fail,
/// so neither `write_all` nor `finish` returns an error.
#[verifier::external_body]
fn gzip(b: &[u8]) -> (r: Vec<u8>)
    ensures
        r@ == gzip_of(b@),
{
    let mut writer = flate2::write::GzEncoder::new(Vec::new(), flate2::Compression::default());
    std::io::Write::write_all(&mut writer, b).expect("writing to a Vec cannot fail");
    writer.finish().expect("writing to a Vec cannot fail")
}

/// Relies on `mime_guess::from_path(..).first_raw()`: the first MIME type
/// registered for the path's extension.
#[verifier::external_body]
fn guess_mime(path: &str) -> (r: Option<String>)
    ensures
        match r {
            Some(s) => guessed_mime(path@) == Some(s@),
            None => guessed_mime(path@) is None,
        },
{
    mime_guess::from_path(path).first_raw().map(|m| m.to_string())
}

/// Relies on `std::path::Path::extension`: whether the last component of
/// the path has an extension.
#[verifier::external_body]
fn has_extension(path: &str) -> (r: bool)
    ensures
        r == path_has_extension(path@),
{
    std::path::Path::new(path).extension().is_some()
}

/// `HTTP/1.1 404 NOT FOUND` and CRLF.
pub open spec fn not_found_status() -> Seq<u8> {
    seq![
        72u8, 84, 84, 80, 47, 49, 46, 49, 32, 52, 48, 52, 32, 78, 79, 84, 32, 70, 79, 85, 78, 68,
        13, 10,
    ]
}

/// `<h1>404 Not Found</h1>`
pub open spec fn not_found_body() -> Seq<u8> {
    seq![
        60u8, 104, 49, 62, 52, 48, 52, 32, 78, 111, 116, 32, 70, 111, 117, 110, 100, 60, 47, 104,
        49, 62,
    ]
}

/// `<h1>Unknown Error Occurred</h1>`
pub open spec fn unknown_error_body() -> Seq<u8> {
    seq![
        60u8, 104, 49, 62, 85, 110, 107, 110, 111, 119, 110, 32, 69, 114, 114, 111, 114, 32, 79,
        99, 99, 117, 114, 114, 101, 100, 60, 47, 104, 49, 62,
    ]
}

/// `HTTP/1.1 400 BAD REQUEST` and CRLF.
pub open spec fn bad_request_status() -> Seq<u8> {
    seq![
        72u8, 84, 84, 80, 47, 49, 46, 49, 32, 52, 48, 48, 32, 66, 65, 68, 32, 82, 69, 81, 85, 69,
        83, 84, 13, 10,
    ]
}

/// A response with the given status line, body and MIME type, and no
/// headers yet.
pub open spec fn is_page(r: Response, status: Seq<u8>, body: Seq<u8>, mime: Seq<char>) -> bool {
    &&& r.status_line@ == status
    &&& r.body matches Some(b) && b@ == body
    &&& r.mime matches Some(m) && m@ == mime
    &&& r.headers.wf()
    &&& r.headers@.len() == 0
}

/// `HTTP/1.1 404 NOT FOUND` and CRLF.
fn not_found_status_line() -> (r: Vec<u8>)
    ensures
        r@ == not_found_status(),
{
    vec![
        72u8, 84, 84, 80, 47, 49, 46, 49, 32, 52, 48, 52, 32, 78, 79, 84, 32, 70, 79, 85, 78, 68,
        13, 10,
    ]
}

/// `<h1>404 Not Found</h1>`
fn not_found_page() -> (r: Vec<u8>)
    ensures
        r@ == not_found_body(),
{
    vec![
        60u8, 104, 49, 62, 52, 48, 52, 32, 78, 111, 116, 32, 70, 111, 117, 110, 100, 60, 47, 104,
        49, 62,
    ]
}

fn page(status: Vec<u8>, body: Vec<u8>, mime: &str) -> (r: Response)
    ensures
        is_page(r, status@, body@, mime@),
{
    let mut r = Response::new();
    r.status_line = status;
    r.body = Some(body);
    r.mime = Some(mime.to_owned());
    r
}

/// The page for a path that nothing serves.
pub fn not_found() -> (r: Response)
    ensures
        is_page(r, not_found_status(), not_found_body(), "text/html"@),
{
    page(not_found_status_line(), not_found_page(), "text/html")
}

/// The page for a request whose method is neither GET nor POST.
fn unknown_method() -> (r: Response)
    ensures
        is_page(r, not_found_status(), unknown_error_body(), "text/html"@),
{
    page(
        not_found_status_line(),
        vec![
            60u8, 104, 49, 62, 85, 110, 107, 110, 111, 119, 110, 32, 69, 114, 114, 111, 114, 32,
            79, 99, 99, 117, 114, 114, 101, 100, 60, 47, 104, 49, 62,
        ],
        "text/html",
    )
}

/// The plain-text reply to a request that could not be decoded.
pub fn error_response(e: RequestError) -> (r: Response)
    ensures
        is_page(r, bad_request_status(), encode_utf8(e.message_spec()), "text/plain"@),
{
    let msg = e.message();
    let mut body: Vec<u8> = Vec::new();
    crate::bytes::append_bytes(&mut body, msg.as_bytes());
    page(
        vec![
            72u8, 84, 84, 80, 47, 49, 46, 49, 32, 52, 48, 48, 32, 66, 65, 68, 32, 82, 69, 81, 85,
            69, 83, 84, 13, 10,
        ],
        body,
        "text/plain",
    )
}

/// The method a status line names, when it has a path after it.
pub open spec fn method_of(parts: Seq<Seq<char>>) -> Option<Method> {
    if parts.len() < 2 {
        None
    } else if encode_utf8(parts[0]) == seq![71u8, 69, 84] {
        Some(Method::GET)
    } else if encode_utf8(parts[0]) == seq![80u8, 79, 83, 84] {
        Some(Method::POST)
    } else {
        None
    }
}

/// What a wildcard route captures from the normalized path `p`: everything
/// after the route's path and a `/`.
pub open spec fn capture(p: Seq<u8>, route_path: Seq<u8>) -> Seq<u8> {
    let pre = route_path.push(47u8);
    if is_prefix(pre, p) {
        p.subrange(pre.len() as int, p.len() as int)
    } else {
        Seq::empty()
    }
}

/// The text of a capture.
pub open spec fn capture_text(c: Seq<u8>) -> Option<Seq<char>> {
    if valid_utf8(c) {
        Some(decode_utf8(c))
    } else {
        None
    }
}

/// Where a request goes, by method, route table and mount point.
pub enum Target {
    /// The route at this index of the method's table.
    Route(int),
    /// The static file fallback, at the mount point joined with the path.
    Static(Seq<char>),
    NotFound,
    UnknownMethod,
}

/// The route table of a method.
pub open spec fn table<H>(config: Config<H>, m: Method) -> Seq<Route<H>> {
    match m {
        Method::GET => config.spec_get_table(),
        Method::POST => config.spec_post_table(),
    }
}

pub open spec fn target<H>(parts: Seq<Seq<char>>, config: Config<H>) -> Target {
    match method_of(parts) {
        None => Target::UnknownMethod,
        Some(m) => match route_index(table(config, m), encode_utf8(parts[1])) {
            Some(i) => Target::Route(i),
            None => if m == Method::GET && config.spec_mount() is Some {
                Target::Static(config.spec_mount()->Some_0@ + parts[1])
            } else {
                Target::NotFound
            },
        },
    }
}

/// The outcome of routing one request.
pub enum Dispatch<'a, H> {
    /// Call this route's handler with this request.
    Handler(&'a Route<H>, Request),
    /// Serve the static file at this path.
    Static(String),
    /// Send this response.
    Reply(Response),
}

/// The request handed to a route: the wildcard route's capture attached.
pub open spec fn routed_request<H>(req: Request, rt: Route<H>, rq: Request) -> bool {
    &&& rq.spec_body() == req.spec_body()
    &&& rq.spec_headers() == req.spec_headers()
    &&& rq.spec_status_line() == req.spec_status_line()
    &&& rq.spec_http2() == req.spec_http2()
    &&& rq.spec_wildcard() == if rt.wildcard is Some {
        capture_text(
            capture(normalize(encode_utf8(req.spec_status_line()[1])), path_bytes(rt)),
        )
    } else {
        req.spec_wildcard()
    }
}

/// Routes a decoded request: to a handler (with any wildcard capture
/// attached), to the static file fallback for an unmatched GET when a mount
/// point is set, or to a 404 page.
pub fn route_request<'a, H>(req: Request, config: &'a Config<H>) -> (r: Dispatch<'a, H>)
    ensures
        match target(req.spec_status_line(), *config) {
            Target::Route(i) => {
                let m = method_of(req.spec_status_line())->Some_0;
                r matches Dispatch::Handler(rt, rq) && 0 <= i < table(*config, m).len() && *rt
                    == table(*config, m)[i] && routed_request(req, *rt, rq)
            },
            Target::Static(p) => r matches Dispatch::Static(s) && s@ == p,
            Target::NotFound => r matches Dispatch::Reply(resp) && is_page(
                resp,
                not_found_status(),
                not_found_body(),
                "text/html"@,
            ),
            Target::UnknownMethod => r matches Dispatch::Reply(resp) && is_page(
                resp,
                not_found_status(),
                unknown_error_body(),
                "text/html"@,
            ),
        },
{
    let ghost parts = req.spec_status_line();
    let status = req.get_status_line();
    if status.len() < 2 {
        return Dispatch::Reply(unknown_method());
    }
    assert(status@.map_values(|s: String| s@)[1] == status@[1]@);
    assert(status@.map_values(|s: String| s@)[0] == status@[0]@);
    let path: String = status[1].clone();
    // "GET" and "POST"
    let get_v: Vec<u8> = vec![71u8, 69, 84];
    let post_v: Vec<u8> = vec![80u8, 79, 83, 84];
    let method = if bytes_equal(status[0].as_str().as_bytes(), get_v.as_slice()) {
        Method::GET
    } else if bytes_equal(status[0].as_str().as_bytes(), post_v.as_slice()) {
        Method::POST
    } else {
        return Dispatch::Reply(unknown_method());
    };
    let found = match method {
        Method::GET => config.get_routes(path.as_str()),
        Method::POST => config.post_routes(path.as_str()),
    };
    match found {
        Some(rt) => {
            let mut rq = req;
            if rt.wildcard.is_some() {
                let p = normalize_path(path.as_str().as_bytes());
                let mut pre: Vec<u8> = Vec::new();
                crate::bytes::append_bytes(&mut pre, rt.path.as_str().as_bytes());
                pre.push(47u8);
                let c = if is_prefix_of(pre.as_slice(), p.as_slice()) {
                    copy_range(p.as_slice(), pre.len(), p.len())
                } else {
                    Vec::new()
                };
                proof {
                    assert(pre@ == path_bytes(*rt).push(47u8));
                    if !is_prefix(pre@, p@) {
                        assert(c@ =~= Seq::<u8>::empty());
                    }
                }
                let w = string_from_utf8(c);
                rq.set_wildcard(w);
            }
            Dispatch::Handler(rt, rq)
        },
        None => match method {
            Method::GET => match config.get_mount() {
                Some(mount) => Dispatch::Static(mount.clone().concat(path.as_str())),
                None => Dispatch::Reply(not_found()),
            },
            Method::POST => Dispatch::Reply(not_found()),
        },
    }
}

/// What comes of a request once routed.
pub enum Resolved {
    /// The response to send.
    Response(Response),
    /// Serve the static file at this path.
    Static(String),
}

/// Routes a request and runs the matched handler.
pub fn build_res<H: Fn(Option<Request>) -> Reply>(req: Request, config: &Config<H>) -> (r: Resolved)
    requires
        total_handlers(config.spec_get_table()),
        total_handlers(config.spec_post_table()),
    ensures
        match target(req.spec_status_line(), *config) {
            Target::Route(i) => {
                let rt = table(*config, method_of(req.spec_status_line())->Some_0)[i];
                r matches Resolved::Response(resp) && exists|rq: Request, reply: Reply|
                    routed_request(req, rt, rq) && call_ensures(
                        rt.handler,
                        (handler_arg(rt.kind, rq),),
                        reply,
                    ) && response_of(resp, reply)
            },
            Target::Static(p) => r matches Resolved::Static(s) && s@ == p,
            Target::NotFound => r matches Resolved::Response(resp) && is_page(
                resp,
                not_found_status(),
                not_found_body(),
                "text/html"@,
            ),
            Target::UnknownMethod => r matches Resolved::Response(resp) && is_page(
                resp,
                not_found_status(),
                unknown_error_body(),
                "text/html"@,
            ),
        },
{
    match route_request(req, config) {
        Dispatch::Handler(rt, rq) => {
            let ghost grq = rq;
            let resp = rt.to_res(rq);
            assert(routed_request(req, *rt, grq));
            Resolved::Response(resp)
        },
        Dispatch::Static(s) => Resolved::Static(s),
        Dispatch::Reply(resp) => Resolved::Response(resp),
    }
}

/// What the file system says about the paths a static lookup may serve,
/// for a requested path `p`: whether `p` is a file, whether it is a
/// directory, whether `p/index.html` is a file, whether `p.html` is a file.
#[derive(Clone, Copy, Debug)]
pub struct FsProbe {
    pub is_file: bool,
    pub is_dir: bool,
    pub dir_index_is_file: bool,
    pub html_is_file: bool,
}

/// The file a static lookup serves, if any.
#[derive(Clone, Debug)]
pub enum StaticPlan {
    /// Serve the file at this path with this MIME type.
    Serve(String, String),
    /// A directory without an index page.
    DirWithoutIndex,
    NotFound,
}

/// Picks the file to serve for `path` (the mount point joined with the
/// request path): in SPA mode an extensionless path gets the mount point's
/// `index.html`; else the file itself, with the MIME type guessed from its
/// extension (`text/plain` if none is known); else a directory's
/// `index.html`; else `path.html`.
pub fn static_plan(mount: &str, path: &str, spa: bool, probe: FsProbe) -> (r: StaticPlan)
    ensures
        if spa && !path_has_extension(path@) {
            r matches StaticPlan::Serve(f, m) && f@ == mount@ + "/index.html"@ && m@
                == "text/html"@
        } else if probe.is_file {
            r matches StaticPlan::Serve(f, m) && f@ == path@ && m@ == match guessed_mime(path@) {
                Some(g) => g,
                None => "text/plain"@,
            }
        } else if probe.is_dir {
            if probe.dir_index_is_file {
                r matches StaticPlan::Serve(f, m) && f@ == path@ + "/index.html"@ && m@
                    == "text/html"@
            } else {
                r is DirWithoutIndex
            }
        } else if probe.html_is_file {
            r matches StaticPlan::Serve(f, m) && f@ == path@ + ".html"@ && m@ == "text/html"@
        } else {
            r is NotFound
        },
{
    if spa && !has_extension(path) {
        StaticPlan::Serve(mount.to_owned().concat("/index.html"), "text/html".to_owned())
    } else if probe.is_file {
        let mime = match guess_mime(path) {
            Some(g) => g,
            None => "text/plain".to_owned(),
        };
        StaticPlan::Serve(path.to_owned(), mime)
    } else if probe.is_dir {
        if probe.dir_index_is_file {
            StaticPlan::Serve(path.to_owned().concat("/index.html"), "text/html".to_owned())
        } else {
            StaticPlan::DirWithoutIndex
        }
    } else if probe.html_is_file {
        StaticPlan::Serve(path.to_owned().concat(".html"), "text/html".to_owned())
    } else {
        StaticPlan::NotFound
    }
}

/// The response for a static lookup, given the contents of the planned file
/// (`None` when it could not be read). A file that could not be read, a
/// directory without an index page and a path that nothing serves all get
/// the 404 page.
pub fn static_response(plan: StaticPlan, contents: Option<Vec<u8>>) -> (r: Response)
    ensures
        match (plan, contents) {
            (StaticPlan::Serve(_, m), Some(c)) => is_page(r, ok_status(), c@, m@),
            _ => is_page(r, not_found_status(), not_found_body(), "text/html"@),
        },
{
    match (plan, contents) {
        (StaticPlan::Serve(_, m), Some(c)) => page(ok_status_line(), c, m.as_str()),
        _ => not_found(),
    }
}

/// `gzip`
pub open spec fn gzip_token() -> Seq<u8> {
    seq![103u8, 122, 105, 112]
}

/// Whether the comma-separated list `s`, from `pos` on, holds an item that
/// is `tok` once trimmed.
pub open spec fn list_has(s: Seq<u8>, pos: int, tok: Seq<u8>) -> bool
    decreases s.len() - pos,
{
    if pos < 0 || pos > s.len() {
        false
    } else {
        match find_from(s, pos, seq![44u8]) {
            None => trim(s.subrange(pos, s.len() as int)) == tok,
            Some(e) => if e < pos || e >= s.len() {
                false
            } else {
                trim(s.subrange(pos, e)) == tok || list_has(s, e + 1, tok)
            },
        }
    }
}

/// Whether a response to a request with these headers is compressed: gzip
/// is enabled and `Accept-Encoding` lists `gzip`.
pub open spec fn wants_gzip(enabled: bool, req_headers: HeaderMap) -> bool {
    enabled && match req_headers.spec_get("accept-encoding"@) {
        Some(v) => list_has(encode_utf8(v), 0, gzip_token()),
        None => false,
    }
}

/// Whether the response to a request with `req_headers` is to be
/// compressed under `config`.
pub fn accepts_gzip<H>(config: &Config<H>, req_headers: &HeaderMap) -> (r: bool)
    ensures
        r == wants_gzip(config.spec_gzip(), *req_headers),
{
    if !config.get_gzip() {
        return false;
    }
    let vs = match req_headers.get("accept-encoding") {
        Some(vs) => vs,
        None => return false,
    };
    let v = vs.as_bytes();
    // "," and "gzip"
    let comma: Vec<u8> = vec![44u8];
    let tok: Vec<u8> = vec![103u8, 122, 105, 112];
    let n = v.len();
    let mut pos: usize = 0;
    while pos <= n
        invariant
            n == v@.len(),
            comma@ == seq![44u8],
            tok@ == gzip_token(),
            list_has(v@, 0, gzip_token()) == list_has(v@, pos as int, gzip_token()),
            wants_gzip(config.spec_gzip(), *req_headers) == list_has(v@, 0, gzip_token()),
        decreases n + 1 - pos,
    {
        match find(v, pos, comma.as_slice()) {
            None => {
                let item = trim_bytes(copy_range(v, pos, n).as_slice());
                return bytes_equal(item.as_slice(), tok.as_slice());
            },
            Some(e) => {
                proof {
                    lemma_find_from_sound(v@, pos as int, seq![44u8]);
                }
                let item = trim_bytes(copy_range(v, pos, e).as_slice());
                if bytes_equal(item.as_slice(), tok.as_slice()) {
                    return true;
                }
                pos = e + 1;
            },
        }
    }
    false
}

/// The server-identity header's value.
pub open spec fn version() -> Seq<char> {
    "0.1.0"@
}

/// The content type a response is sent with: its explicit MIME type, else
/// the type sniffed from its body, else `text/plain`; none without a body.
pub open spec fn content_type(r: Response) -> Option<Seq<char>> {
    match r.mime {
        Some(m) => Some(m@),
        None => match r.body {
            Some(b) => match sniffed_mime(b@) {
                Some(t) => Some(t),
                None => Some("text/plain"@),
            },
            None => None,
        },
    }
}

/// The headers of a prepared response, before compression: the
/// server-identity header, then the configured extra headers, then the
/// content type, then the handler's own headers, each overriding the later
/// ones.
pub open spec fn prepared_header(
    r: Response,
    extra: Option<HeaderMap>,
    q: Seq<char>,
) -> Option<Seq<char>> {
    if name_key(q) == name_key("tinyhttp"@) {
        Some(version())
    } else if extra is Some && extra->Some_0.spec_get(q) is Some {
        extra->Some_0.spec_get(q)
    } else if name_key(q) == name_key("Content-Type"@) && content_type(r) is Some {
        content_type(r)
    } else {
        r.headers.spec_get(q)
    }
}

/// Enriches a handler's response before it is sent: sets `Content-Type`,
/// the configured extra headers and the server-identity header, and, when
/// `compress` is set, replaces the body by its gzip stream and sets
/// `Content-Encoding: gzip`.
pub fn prepare<H>(response: Response, config: &Config<H>, compress: bool) -> (r: Response)
    ensures
        r.headers.wf(),
        r.status_line == response.status_line,
        r.mime == response.mime,
        match response.body {
            None => r.body is None && forall|q: Seq<char>|
                #[trigger] r.headers.spec_get(q) == prepared_header(
                    response,
                    config.spec_headers(),
                    q,
                ),
            Some(b) => r.body matches Some(rb) && if compress {
                rb@ == gzip_of(b@) && forall|q: Seq<char>|
                    #[trigger] r.headers.spec_get(q) == if name_key(q) == name_key(
                        "Content-Encoding"@,
                    ) {
                        Some("gzip"@)
                    } else {
                        prepared_header(response, config.spec_headers(), q)
                    }
            } else {
                rb@ == b@ && forall|q: Seq<char>|
                    #[trigger] r.headers.spec_get(q) == prepared_header(
                        response,
                        config.spec_headers(),
                        q,
                    )
            },
        },
{
    let mut res = response;
    let mut headers = HeaderMap::new();
    headers.extend_from(&res.headers);
    match &res.mime {
        Some(t) => {
            headers.set("Content-Type", t.as_str());
        },
        None => {
            if let Some(body) = &res.body {
                match sniff_mime(body.as_slice()) {
                    Some(t) => headers.set("Content-Type", t.as_str()),
                    None => headers.set("Content-Type", "text/plain"),
                }
            }
        },
    }
    if let Some(extra) = config.get_headers() {
        headers.extend_from(extra);
    }
    headers.set("tinyhttp", "0.1.0");
    if compress {
        let zipped = match &res.body {
            Some(b) => Some(gzip(b.as_slice())),
            None => None,
        };
        if let Some(z) = zipped {
            res.body = Some(z);
            headers.set("Content-Encoding", "gzip");
        }
    }
    res.headers = headers;
    res
}

/// A GET that no route matches, on a server without a mount point, gets
/// the 404 page.
pub proof fn lemma_unmatched_get_not_found<H>(parts: Seq<Seq<char>>, config: Config<H>)
    requires
        method_of(parts) == Some(Method::GET),
        route_index(config.spec_get_table(), encode_utf8(parts[1])) is None,
        config.spec_mount() is None,
    ensures
        target(parts, config) == Target::NotFound,
{
}

/// A request without an `Accept-Encoding` header is never answered with a
/// compressed body.
pub proof fn lemma_no_accept_encoding(enabled: bool, req_headers: HeaderMap)
    requires
        req_headers.spec_get("accept-encoding"@) is None,
    ensures
        !wants_gzip(enabled, req_headers),
{
}

} // verus!
