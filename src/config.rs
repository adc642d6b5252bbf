//! Routes, the route table and the server-wide settings, with the lookup that
//! maps a request path to a route.
use vstd::prelude::*;
use vstd::utf8::encode_utf8;
use crate::bytes::{bytes_equal, copy_range, find, find_from, fold_case, lemma_find_from_sound};
use crate::decode::{last_value, lemma_last_value_push, value_text};
use crate::headers::name_key;
use crate::text::string_from_utf8;
use vstd::utf8::{decode_utf8_encode_utf8, valid_utf8};
use crate::headers::HeaderMap;
use crate::request::Request;
use crate::response::Response;

verus! {

#[derive(Clone, Copy, Debug, PartialEq, Eq, Structural)]
pub enum Method {
    GET,
    POST,
}

/// The shape of a route's handler, fixed when the route is registered.
#[derive(Clone, Copy, Debug, PartialEq, Eq, Structural)]
pub enum HandlerKind {
    /// Takes no argument and returns the body.
    Plain,
    /// Takes the request and returns the body.
    WithReq,
    /// Takes the request and returns a whole response.
    WithRes,
}

/// What a handler hands back: the bytes of a body, or a whole response.
pub enum Reply {
    Bytes(Vec<u8>),
    Full(Response),
}

/// The status line given to the body a handler returns as bytes.
pub open spec fn ok_status() -> Seq<u8> {
    seq![72u8, 84, 84, 80, 47, 49, 46, 49, 32, 50, 48, 48, 32, 79, 75, 13, 10]
}

/// `HTTP/1.1 200 OK` and CRLF.
pub fn ok_status_line() -> (r: Vec<u8>)
    ensures
        r@ == ok_status(),
{
    vec![72u8, 84, 84, 80, 47, 49, 46, 49, 32, 50, 48, 48, 32, 79, 75, 13, 10]
}

impl Reply {
    /// The response for this reply: bytes become the body of a `200 OK`
    /// response whose MIME type is left to inference.
    pub fn into_response(self) -> (r: Response)
        ensures
            match self {
                Reply::Bytes(b) => r.status_line@ == ok_status() && r.body == Some(b)
                    && r.mime is None && r.headers.wf() && r.headers@.len() == 0,
                Reply::Full(res) => r == res,
            },
    {
        match self {
            Reply::Bytes(b) => {
                let mut r = Response::new();
                r.status_line = ok_status_line();
                r.body = Some(b);
                r
            },
            Reply::Full(res) => res,
        }
    }
}

/// The handler `h` may be called with any argument.
pub open spec fn accepts_all<H: Fn(Option<Request>) -> Reply>(h: H) -> bool {
    forall|a: Option<Request>| call_requires(h, (a,))
}

/// Every route of `t` has a handler that may be called with any argument.
pub open spec fn total_handlers<H: Fn(Option<Request>) -> Reply>(t: Seq<Route<H>>) -> bool {
    forall|i: int| 0 <= i < t.len() ==> accepts_all(#[trigger] t[i].handler)
}

/// `r` is the response made of `reply`: bytes become the body of a `200 OK`
/// response without headers or MIME type, a whole response is kept as it is.
pub open spec fn response_of(r: Response, reply: Reply) -> bool {
    match reply {
        Reply::Bytes(b) => r.status_line@ == ok_status() && r.body == Some(b) && r.mime is None
            && r.headers.wf() && r.headers@.len() == 0,
        Reply::Full(res) => r == res,
    }
}

/// What a route's handler is given: nothing for a `Plain` route, the request
/// otherwise.
pub open spec fn handler_arg(kind: HandlerKind, req: Request) -> Option<Request> {
    if kind == HandlerKind::Plain {
        None
    } else {
        Some(req)
    }
}

/// A registered binding of a method and a path to a handler. `path` is the
/// exact path, or for a wildcard route the prefix before the captured segment.
pub struct Route<H> {
    pub method: Method,
    pub path: String,
    pub wildcard: Option<String>,
    pub kind: HandlerKind,
    pub handler: H,
}

impl<H: Fn(Option<Request>) -> Reply> Route<H> {
    pub fn get_path(&self) -> (r: &str)
        ensures
            r@ == self.path@,
    {
        self.path.as_str()
    }

    pub fn get_method(&self) -> (r: Method)
        ensures
            r == self.method,
    {
        self.method
    }

    /// The name of the captured segment, for a wildcard route.
    pub fn wildcard(&self) -> (r: Option<String>)
        ensures
            r == self.wildcard,
    {
        match &self.wildcard {
            Some(w) => Some(w.clone()),
            None => None,
        }
    }

    /// Runs the handler on `req` as its shape asks and turns its reply into a
    /// response.
    pub fn to_res(&self, req: Request) -> (r: Response)
        requires
            accepts_all(self.handler),
        ensures
            exists|reply: Reply|
                call_ensures(self.handler, (handler_arg(self.kind, req),), reply) && response_of(
                    r,
                    reply,
                ),
    {
        let arg = match self.kind {
            HandlerKind::Plain => None,
            _ => Some(req),
        };
        assert(arg == handler_arg(self.kind, req));
        let reply = (self.handler)(arg);
        let ghost g = reply;
        let r = reply.into_response();
        assert(response_of(r, g));
        r
    }
}

/// The list of routes handed to the configuration.
pub struct Routes<H> {
    routes: Vec<Route<H>>,
}

impl<H> Routes<H> {
    pub closed spec fn spec_routes(&self) -> Seq<Route<H>> {
        self.routes@
    }

    pub fn new(routes: Vec<Route<H>>) -> (r: Routes<H>)
        ensures
            r.spec_routes() == routes@,
    {
        Routes { routes }
    }

    pub fn get_stream(self) -> (r: Vec<Route<H>>)
        ensures
            r@ == self.spec_routes(),
    {
        self.routes
    }
}

/// The bytes of a route's path.
pub open spec fn path_bytes<H>(r: Route<H>) -> Seq<u8> {
    encode_utf8(r.path@)
}

/// A path that ends in `/` and holds another `/` loses its trailing slash;
/// `/` itself is left alone.
pub open spec fn normalize(p: Seq<u8>) -> Seq<u8> {
    if p.len() > 0 && p.last() == 47 && exists|k: int| 0 <= k < p.len() - 1 && p[k] == 47 {
        p.drop_last()
    } else {
        p
    }
}

/// The first route from index `i` on whose path is exactly `p`.
pub open spec fn exact_from<H>(t: Seq<Route<H>>, p: Seq<u8>, i: int) -> Option<int>
    decreases t.len() - i,
{
    if i < 0 || i >= t.len() {
        None
    } else if path_bytes(t[i]) == p {
        Some(i)
    } else {
        exact_from(t, p, i + 1)
    }
}

/// `pre` is a prefix of `p`.
pub open spec fn is_prefix(pre: Seq<u8>, p: Seq<u8>) -> bool {
    pre.len() <= p.len() && p.subrange(0, pre.len() as int) == pre
}

/// The first wildcard route from index `i` on whose path is a prefix of `p`.
pub open spec fn wildcard_from<H>(t: Seq<Route<H>>, p: Seq<u8>, i: int) -> Option<int>
    decreases t.len() - i,
{
    if i < 0 || i >= t.len() {
        None
    } else if is_prefix(path_bytes(t[i]), p) && t[i].wildcard is Some {
        Some(i)
    } else {
        wildcard_from(t, p, i + 1)
    }
}

/// The route that serves path `p`: an exact match of the normalized path
/// first, else the first wildcard route in table order whose path is a
/// prefix of it.
pub open spec fn route_index<H>(t: Seq<Route<H>>, p: Seq<u8>) -> Option<int> {
    match exact_from(t, normalize(p), 0) {
        Some(i) => Some(i),
        None => wildcard_from(t, normalize(p), 0),
    }
}

/// No two routes of a table share a path.
pub open spec fn unique_paths<H>(t: Seq<Route<H>>) -> bool {
    forall|i: int, j: int|
        0 <= i < t.len() && 0 <= j < t.len() && i != j ==> path_bytes(#[trigger] t[i])
            != path_bytes(#[trigger] t[j])
}

/// The table after registering `r`: a route with the same path is replaced
/// in place, otherwise `r` is appended.
pub open spec fn register<H>(t: Seq<Route<H>>, r: Route<H>) -> Seq<Route<H>> {
    match exact_from(t, path_bytes(r), 0) {
        Some(i) => t.update(i, r),
        None => t.push(r),
    }
}

/// The table built from registering the routes of `rs` with method `m`, in
/// order.
pub open spec fn table_of<H>(rs: Seq<Route<H>>, m: Method) -> Seq<Route<H>>
    decreases rs.len(),
{
    if rs.len() == 0 {
        Seq::empty()
    } else if rs.last().method == m {
        register(table_of(rs.drop_last(), m), rs.last())
    } else {
        table_of(rs.drop_last(), m)
    }
}

pub fn normalize_path(p: &[u8]) -> (r: Vec<u8>)
    ensures
        r@ == normalize(p@),
{
    let n = p.len();
    if n > 0 && p[n - 1] == 47 {
        let mut k: usize = 0;
        while k < n - 1
            invariant
                n == p@.len(),
                n > 0,
                p@[n - 1] == 47,
                k <= n - 1,
                forall|j: int| 0 <= j < k ==> p@[j] != 47,
            decreases n - 1 - k,
        {
            if p[k] == 47 {
                assert(p@[k as int] == 47);
                assert(p@.last() == 47);
                assert(exists|j: int| 0 <= j < p@.len() - 1 && p@[j] == 47);
                assert(p@.subrange(0, n - 1) =~= p@.drop_last());
                return copy_range(p, 0, n - 1);
            }
            k = k + 1;
        }
    }
    assert(p@.subrange(0, n as int) =~= p@);
    copy_range(p, 0, n)
}

proof fn lemma_exact_from_found<H>(t: Seq<Route<H>>, p: Seq<u8>, i: int)
    ensures
        exact_from(t, p, i) matches Some(k) ==> i <= k < t.len() && path_bytes(t[k]) == p,
    decreases t.len() - i,
{
    if 0 <= i < t.len() && path_bytes(t[i]) != p {
        lemma_exact_from_found(t, p, i + 1);
    }
}

proof fn lemma_wildcard_from_found<H>(t: Seq<Route<H>>, p: Seq<u8>, i: int)
    ensures
        wildcard_from(t, p, i) matches Some(k) ==> i <= k < t.len() && is_prefix(
            path_bytes(t[k]),
            p,
        ) && t[k].wildcard is Some,
    decreases t.len() - i,
{
    if 0 <= i < t.len() && !(is_prefix(path_bytes(t[i]), p) && t[i].wildcard is Some) {
        lemma_wildcard_from_found(t, p, i + 1);
    }
}

fn find_exact<H>(t: &Vec<Route<H>>, p: &[u8]) -> (r: Option<usize>)
    ensures
        r matches Some(i) ==> exact_from(t@, p@, 0) == Some(i as int),
        r is None ==> exact_from(t@, p@, 0) is None,
{
    let mut i: usize = 0;
    while i < t.len()
        invariant
            i <= t@.len(),
            exact_from(t@, p@, 0) == exact_from(t@, p@, i as int),
        decreases t@.len() - i,
    {
        if bytes_equal(t[i].path.as_str().as_bytes(), p) {
            return Some(i);
        }
        i = i + 1;
    }
    None
}

pub fn is_prefix_of(pre: &[u8], p: &[u8]) -> (r: bool)
    ensures
        r == is_prefix(pre@, p@),
{
    if pre.len() > p.len() {
        return false;
    }
    let mut i: usize = 0;
    while i < pre.len()
        invariant
            pre@.len() <= p@.len(),
            i <= pre@.len(),
            forall|k: int| 0 <= k < i ==> pre@[k] == p@[k],
        decreases pre@.len() - i,
    {
        if pre[i] != p[i] {
            assert(p@.subrange(0, pre@.len() as int)[i as int] != pre@[i as int]);
            return false;
        }
        i = i + 1;
    }
    assert(p@.subrange(0, pre@.len() as int) =~= pre@);
    true
}

fn find_wildcard<H>(t: &Vec<Route<H>>, p: &[u8]) -> (r: Option<usize>)
    ensures
        r matches Some(i) ==> wildcard_from(t@, p@, 0) == Some(i as int),
        r is None ==> wildcard_from(t@, p@, 0) is None,
{
    let mut i: usize = 0;
    while i < t.len()
        invariant
            i <= t@.len(),
            wildcard_from(t@, p@, 0) == wildcard_from(t@, p@, i as int),
        decreases t@.len() - i,
    {
        if is_prefix_of(t[i].path.as_str().as_bytes(), p) && t[i].wildcard.is_some() {
            return Some(i);
        }
        i = i + 1;
    }
    None
}

/// Looks `req_path` up in a route table.
fn lookup_route<'a, H>(t: &'a Vec<Route<H>>, req_path: &str) -> (r: Option<&'a Route<H>>)
    ensures
        match route_index(t@, encode_utf8(req_path@)) {
            Some(i) => 0 <= i < t@.len() && r == Some(&t@[i]),
            None => r is None,
        },
{
    let p = normalize_path(req_path.as_bytes());
    match find_exact(t, p.as_slice()) {
        Some(i) => {
            proof {
                lemma_exact_from_found(t@, p@, 0);
            }
            Some(&t[i])
        },
        None => match find_wildcard(t, p.as_slice()) {
            Some(i) => {
                proof {
                    lemma_wildcard_from_found(t@, p@, 0);
                }
                Some(&t[i])
            },
            None => None,
        },
    }
}

/// Registers `r` in table `t`.
fn register_route<H>(t: &mut Vec<Route<H>>, r: Route<H>)
    ensures
        final(t)@ == register(old(t)@, r),
{
    match find_exact(t, r.path.as_str().as_bytes()) {
        Some(i) => {
            proof {
                lemma_exact_from_found(t@, path_bytes(r), 0);
            }
            t.set(i, r);
        },
        None => {
            t.push(r);
        },
    }
}

/// Server-wide settings and the two route tables, one per method.
pub struct Config<H> {
    mount_point: Option<String>,
    get_routes: Vec<Route<H>>,
    post_routes: Vec<Route<H>>,
    debug: bool,
    pub ssl: bool,
    ssl_chain: Option<String>,
    ssl_priv: Option<String>,
    headers: Option<HeaderMap>,
    gzip: bool,
    spa: bool,
    http2: bool,
}

/// A declared header line `Name: Value`, split at the first `": "`; both
/// parts must be valid UTF-8.
pub open spec fn header_decl(line: Seq<u8>) -> Option<(Seq<u8>, Seq<u8>)> {
    match find_from(line, 0, seq![58u8, 32u8]) {
        None => None,
        Some(i) => {
            let name = line.subrange(0, i);
            let value = line.subrange(i + 2, line.len() as int);
            if valid_utf8(name) && valid_utf8(value) {
                Some((name, value))
            } else {
                None
            }
        },
    }
}

/// The well-formed declarations among `lines`, keyed by their case-folded
/// names; malformed lines are left out.
pub open spec fn decl_entries(lines: Seq<Seq<u8>>) -> Seq<(Seq<u8>, Seq<u8>)>
    decreases lines.len(),
{
    if lines.len() == 0 {
        Seq::empty()
    } else {
        match header_decl(lines.last()) {
            Some((n, v)) => decl_entries(lines.drop_last()).push((fold_case(n), v)),
            None => decl_entries(lines.drop_last()),
        }
    }
}

proof fn lemma_register_unique<H>(t: Seq<Route<H>>, r: Route<H>)
    requires
        unique_paths(t),
    ensures
        unique_paths(register(t, r)),
{
    lemma_exact_from_found(t, path_bytes(r), 0);
    let u = register(t, r);
    match exact_from(t, path_bytes(r), 0) {
        Some(i) => {
            assert forall|a: int, b: int|
                0 <= a < u.len() && 0 <= b < u.len() && a != b implies path_bytes(#[trigger] u[a])
                != path_bytes(#[trigger] u[b]) by {
                assert(path_bytes(u[a]) == path_bytes(t[a]));
                assert(path_bytes(u[b]) == path_bytes(t[b]));
            }
        },
        None => {
            lemma_exact_from_none(t, path_bytes(r), 0);
            assert forall|a: int, b: int|
                0 <= a < u.len() && 0 <= b < u.len() && a != b implies path_bytes(#[trigger] u[a])
                != path_bytes(#[trigger] u[b]) by {
                if a < t.len() && b < t.len() {
                    assert(u[a] == t[a] && u[b] == t[b]);
                }
            }
        },
    }
}

proof fn lemma_exact_from_none<H>(t: Seq<Route<H>>, p: Seq<u8>, i: int)
    requires
        exact_from(t, p, i) is None,
        0 <= i,
    ensures
        forall|k: int| i <= k < t.len() ==> path_bytes(#[trigger] t[k]) != p,
    decreases t.len() - i,
{
    if i < t.len() {
        lemma_exact_from_none(t, p, i + 1);
    }
}

impl<H> Config<H> {
    pub closed spec fn spec_mount(&self) -> Option<String> {
        self.mount_point
    }

    pub closed spec fn spec_get_table(&self) -> Seq<Route<H>> {
        self.get_routes@
    }

    pub closed spec fn spec_post_table(&self) -> Seq<Route<H>> {
        self.post_routes@
    }

    pub closed spec fn spec_debug(&self) -> bool {
        self.debug
    }

    pub closed spec fn spec_ssl(&self) -> bool {
        self.ssl
    }

    pub closed spec fn spec_ssl_files(&self) -> (Option<String>, Option<String>) {
        (self.ssl_chain, self.ssl_priv)
    }

    pub closed spec fn spec_headers(&self) -> Option<HeaderMap> {
        self.headers
    }

    pub closed spec fn spec_gzip(&self) -> bool {
        self.gzip
    }

    pub closed spec fn spec_spa(&self) -> bool {
        self.spa
    }

    pub closed spec fn spec_http2(&self) -> bool {
        self.http2
    }

    /// Both route tables hold each path at most once.
    pub open spec fn wf(&self) -> bool {
        &&& unique_paths(self.spec_get_table())
        &&& unique_paths(self.spec_post_table())
    }

    /// The settings before any option: no routes, no mount point, every
    /// flag off.
    pub fn new() -> (r: Config<H>)
        ensures
            r.wf(),
            r.spec_mount() is None,
            r.spec_get_table().len() == 0,
            r.spec_post_table().len() == 0,
            !r.spec_debug(),
            !r.spec_ssl(),
            r.spec_ssl_files() == (None::<String>, None::<String>),
            r.spec_headers() is None,
            !r.spec_gzip(),
            !r.spec_spa(),
            !r.spec_http2(),
    {
        Config {
            mount_point: None,
            get_routes: Vec::new(),
            post_routes: Vec::new(),
            debug: false,
            ssl: false,
            ssl_chain: None,
            ssl_priv: None,
            headers: None,
            gzip: false,
            spa: false,
            http2: false,
        }
    }

    /// Directory searched for a static file when no route matches a GET.
    pub fn mount_point(self, path: &str) -> (r: Config<H>)
        ensures
            r.spec_mount() matches Some(m) && m@ == path@,
            r.wf() == self.wf(),
            r.spec_get_table() == self.spec_get_table(),
            r.spec_post_table() == self.spec_post_table(),
            r.spec_debug() == self.spec_debug(),
            r.spec_ssl() == self.spec_ssl(),
            r.spec_ssl_files() == self.spec_ssl_files(),
            r.spec_headers() == self.spec_headers(),
            r.spec_gzip() == self.spec_gzip(),
            r.spec_spa() == self.spec_spa(),
            r.spec_http2() == self.spec_http2(),
    {
        let mut s = self;
        s.mount_point = Some(path.to_owned());
        s
    }

    /// Builds the two route tables from `routes`, in order. A route whose
    /// path is already registered for its method replaces the earlier one.
    pub fn routes(self, routes: Routes<H>) -> (r: Config<H>)
        ensures
            r.wf(),
            r.spec_get_table() == table_of(routes.spec_routes(), Method::GET),
            r.spec_post_table() == table_of(routes.spec_routes(), Method::POST),
            r.spec_mount() == self.spec_mount(),
            r.spec_debug() == self.spec_debug(),
            r.spec_ssl() == self.spec_ssl(),
            r.spec_ssl_files() == self.spec_ssl_files(),
            r.spec_headers() == self.spec_headers(),
            r.spec_gzip() == self.spec_gzip(),
            r.spec_spa() == self.spec_spa(),
            r.spec_http2() == self.spec_http2(),
    {
        let ghost rs = routes.spec_routes();
        let mut v = routes.get_stream();
        let mut get_routes: Vec<Route<H>> = Vec::new();
        let mut post_routes: Vec<Route<H>> = Vec::new();
        let ghost mut i: int = 0;
        while v.len() > 0
            invariant
                0 <= i <= rs.len(),
                v@ == rs.subrange(i, rs.len() as int),
                get_routes@ == table_of(rs.subrange(0, i), Method::GET),
                post_routes@ == table_of(rs.subrange(0, i), Method::POST),
                unique_paths(get_routes@),
                unique_paths(post_routes@),
            decreases v@.len(),
        {
            let route = v.remove(0);
            proof {
                assert(rs.subrange(0, i + 1).drop_last() =~= rs.subrange(0, i));
                assert(rs.subrange(0, i + 1).last() == route);
                lemma_register_unique(get_routes@, route);
                lemma_register_unique(post_routes@, route);
            }
            match route.method {
                Method::GET => register_route(&mut get_routes, route),
                Method::POST => register_route(&mut post_routes, route),
            }
            proof {
                i = i + 1;
                assert(v@ =~= rs.subrange(i, rs.len() as int));
            }
        }
        proof {
            assert(rs.subrange(0, i) =~= rs);
        }
        let mut s = self;
        s.get_routes = get_routes;
        s.post_routes = post_routes;
        s
    }

    /// Sets the certificate chain and private key files and turns TLS on.
    pub fn ssl(self, ssl_chain: String, ssl_priv: String) -> (r: Config<H>)
        ensures
            r.spec_ssl(),
            r.spec_ssl_files() == (Some(ssl_chain), Some(ssl_priv)),
            r.wf() == self.wf(),
            r.spec_mount() == self.spec_mount(),
            r.spec_get_table() == self.spec_get_table(),
            r.spec_post_table() == self.spec_post_table(),
            r.spec_debug() == self.spec_debug(),
            r.spec_headers() == self.spec_headers(),
            r.spec_gzip() == self.spec_gzip(),
            r.spec_spa() == self.spec_spa(),
            r.spec_http2() == self.spec_http2(),
    {
        let mut s = self;
        s.ssl_chain = Some(ssl_chain);
        s.ssl_priv = Some(ssl_priv);
        s.ssl = true;
        s
    }

    pub fn debug(self) -> (r: Config<H>)
        ensures
            r.spec_debug(),
            r.wf() == self.wf(),
            r.spec_mount() == self.spec_mount(),
            r.spec_get_table() == self.spec_get_table(),
            r.spec_post_table() == self.spec_post_table(),
            r.spec_ssl() == self.spec_ssl(),
            r.spec_ssl_files() == self.spec_ssl_files(),
            r.spec_headers() == self.spec_headers(),
            r.spec_gzip() == self.spec_gzip(),
            r.spec_spa() == self.spec_spa(),
            r.spec_http2() == self.spec_http2(),
    {
        let mut s = self;
        s.debug = true;
        s
    }

    /// Extra headers sent with every response, each written `Name: Value`.
    /// A line without `": "` is ignored; a repeated name keeps its last value.
    pub fn headers(self, headers: Vec<String>) -> (r: Config<H>)
        ensures
            r.spec_headers() matches Some(m) && m.wf() && forall|q: Seq<char>|
                #[trigger] m.spec_get(q) == value_text(
                    last_value(
                        decl_entries(headers@.map_values(|s: String| encode_utf8(s@))),
                        name_key(q),
                    ),
                ),
            r.spec_mount() == self.spec_mount(),
            r.spec_get_table() == self.spec_get_table(),
            r.spec_post_table() == self.spec_post_table(),
            r.spec_debug() == self.spec_debug(),
            r.spec_ssl() == self.spec_ssl(),
            r.spec_ssl_files() == self.spec_ssl_files(),
            r.spec_gzip() == self.spec_gzip(),
            r.spec_spa() == self.spec_spa(),
            r.spec_http2() == self.spec_http2(),
    {
        let ghost lines = headers@.map_values(|s: String| encode_utf8(s@));
        // ": "
        let sep: Vec<u8> = vec![58u8, 32u8];
        let mut m = HeaderMap::new();
        let mut i: usize = 0;
        while i < headers.len()
            invariant
                i <= headers@.len(),
                lines == headers@.map_values(|s: String| encode_utf8(s@)),
                sep@ == seq![58u8, 32u8],
                m.wf(),
                forall|q: Seq<char>|
                    #[trigger] m.spec_get(q) == value_text(
                        last_value(decl_entries(lines.subrange(0, i as int)), name_key(q)),
                    ),
            decreases headers@.len() - i,
        {
            let line = headers[i].as_str().as_bytes();
            let _n = line.len();
            proof {
                assert(lines.subrange(0, i + 1).drop_last() =~= lines.subrange(0, i as int));
                assert(lines.subrange(0, i + 1).last() == line@);
            }
            match find(line, 0, sep.as_slice()) {
                None => {},
                Some(k) => {
                    proof {
                        lemma_find_from_sound(line@, 0, seq![58u8, 32u8]);
                    }
                    let name = copy_range(line, 0, k);
                    let value = copy_range(line, k + 2, line.len());
                    let ghost e = (fold_case(name@), value@);
                    match string_from_utf8(name) {
                        None => {},
                        Some(ns) => match string_from_utf8(value) {
                            None => {},
                            Some(vs) => {
                                let ghost before = m;
                                m.set(ns.as_str(), vs.as_str());
                                proof {
                                    decode_utf8_encode_utf8(name@);
                                    let d = decl_entries(lines.subrange(0, i as int));
                                    assert(decl_entries(lines.subrange(0, i + 1)) == d.push(e));
                                    assert forall|q: Seq<char>|
                                        #[trigger] m.spec_get(q) == value_text(
                                            last_value(d.push(e), name_key(q)),
                                        ) by {
                                        lemma_last_value_push(d, e, name_key(q));
                                    }
                                }
                            },
                        },
                    }
                },
            }
            i = i + 1;
        }
        proof {
            assert(lines.subrange(0, headers@.len() as int) =~= lines);
        }
        let mut s = self;
        s.headers = Some(m);
        s
    }

    /// Serve `index.html` for extensionless paths that no route matches.
    pub fn spa(self, res: bool) -> (r: Config<H>)
        ensures
            r.spec_spa() == res,
            r.wf() == self.wf(),
            r.spec_mount() == self.spec_mount(),
            r.spec_get_table() == self.spec_get_table(),
            r.spec_post_table() == self.spec_post_table(),
            r.spec_debug() == self.spec_debug(),
            r.spec_ssl() == self.spec_ssl(),
            r.spec_ssl_files() == self.spec_ssl_files(),
            r.spec_headers() == self.spec_headers(),
            r.spec_gzip() == self.spec_gzip(),
            r.spec_http2() == self.spec_http2(),
    {
        let mut s = self;
        s.spa = res;
        s
    }

    /// Compress bodies with gzip for clients that accept it.
    pub fn gzip(self, res: bool) -> (r: Config<H>)
        ensures
            r.spec_gzip() == res,
            r.wf() == self.wf(),
            r.spec_mount() == self.spec_mount(),
            r.spec_get_table() == self.spec_get_table(),
            r.spec_post_table() == self.spec_post_table(),
            r.spec_debug() == self.spec_debug(),
            r.spec_ssl() == self.spec_ssl(),
            r.spec_ssl_files() == self.spec_ssl_files(),
            r.spec_headers() == self.spec_headers(),
            r.spec_spa() == self.spec_spa(),
            r.spec_http2() == self.spec_http2(),
    {
        let mut s = self;
        s.gzip = res;
        s
    }

    pub fn http2(self, res: bool) -> (r: Config<H>)
        ensures
            r.spec_http2() == res,
            r.wf() == self.wf(),
            r.spec_mount() == self.spec_mount(),
            r.spec_get_table() == self.spec_get_table(),
            r.spec_post_table() == self.spec_post_table(),
            r.spec_debug() == self.spec_debug(),
            r.spec_ssl() == self.spec_ssl(),
            r.spec_ssl_files() == self.spec_ssl_files(),
            r.spec_headers() == self.spec_headers(),
            r.spec_gzip() == self.spec_gzip(),
            r.spec_spa() == self.spec_spa(),
    {
        let mut s = self;
        s.http2 = res;
        s
    }

    pub fn get_headers(&self) -> (r: Option<&HeaderMap>)
        ensures
            match r {
                Some(m) => self.spec_headers() == Some(*m),
                None => self.spec_headers() is None,
            },
    {
        self.headers.as_ref()
    }

    pub fn get_gzip(&self) -> (r: bool)
        ensures
            r == self.spec_gzip(),
    {
        self.gzip
    }

    pub fn get_debug(&self) -> (r: bool)
        ensures
            r == self.spec_debug(),
    {
        self.debug
    }

    pub fn get_mount(&self) -> (r: Option<&String>)
        ensures
            match r {
                Some(m) => self.spec_mount() == Some(*m),
                None => self.spec_mount() is None,
            },
    {
        self.mount_point.as_ref()
    }

    pub fn get_spa(&self) -> (r: bool)
        ensures
            r == self.spec_spa(),
    {
        self.spa
    }

    /// The GET route that serves `req_path`, as `route_index` picks it.
    pub fn get_routes(&self, req_path: &str) -> (r: Option<&Route<H>>)
        ensures
            match route_index(self.spec_get_table(), encode_utf8(req_path@)) {
                Some(i) => 0 <= i < self.spec_get_table().len() && r == Some(
                    &self.spec_get_table()[i],
                ),
                None => r is None,
            },
    {
        lookup_route(&self.get_routes, req_path)
    }

    /// The POST route that serves `req_path`, as `route_index` picks it.
    pub fn post_routes(&self, req_path: &str) -> (r: Option<&Route<H>>)
        ensures
            match route_index(self.spec_post_table(), encode_utf8(req_path@)) {
                Some(i) => 0 <= i < self.spec_post_table().len() && r == Some(
                    &self.spec_post_table()[i],
                ),
                None => r is None,
            },
    {
        lookup_route(&self.post_routes, req_path)
    }
}

proof fn lemma_exact_from_reaches<H>(t: Seq<Route<H>>, p: Seq<u8>, from: int, i: int)
    requires
        0 <= from <= i < t.len(),
        path_bytes(t[i]) == p,
    ensures
        exact_from(t, p, from) is Some,
    decreases i - from,
{
    if path_bytes(t[from]) != p {
        lemma_exact_from_reaches(t, p, from + 1, i);
    }
}

/// An exact route always wins over a wildcard route: when a route's path is
/// the normalized request path, that route serves the request, whatever
/// wildcard routes could match too.
pub proof fn lemma_exact_wins<H>(t: Seq<Route<H>>, p: Seq<u8>, i: int)
    requires
        unique_paths(t),
        0 <= i < t.len(),
        path_bytes(t[i]) == normalize(p),
    ensures
        route_index(t, p) == Some(i),
{
    lemma_exact_from_reaches(t, normalize(p), 0, i);
    lemma_exact_from_found(t, normalize(p), 0);
}

/// A trailing slash does not change which route serves a path: for a path
/// that holds a `/` and does not end in one, the path with a `/` appended is
/// routed the same way.
pub proof fn lemma_trailing_slash<H>(t: Seq<Route<H>>, p: Seq<u8>)
    requires
        p.len() > 0,
        p.last() != 47,
        exists|k: int| 0 <= k < p.len() && p[k] == 47,
    ensures
        route_index(t, p.push(47u8)) == route_index(t, p),
{
    let q = p.push(47u8);
    let k = choose|k: int| 0 <= k < p.len() && p[k] == 47;
    assert(q[k] == 47);
    assert(q.drop_last() =~= p);
    assert(normalize(q) == p);
    assert(normalize(p) == p);
}

/// The root path `/` is never trimmed.
pub proof fn lemma_root_untouched()
    ensures
        normalize(seq![47u8]) == seq![47u8],
{
}

proof fn lemma_register_keeps<H>(t: Seq<Route<H>>, r: Route<H>, k: int)
    requires
        0 <= k < t.len(),
    ensures
        exists|i: int|
            0 <= i < register(t, r).len() && path_bytes(#[trigger] register(t, r)[i])
                == path_bytes(t[k]),
{
    lemma_exact_from_found(t, path_bytes(r), 0);
    let u = register(t, r);
    match exact_from(t, path_bytes(r), 0) {
        Some(i) => {
            if i == k {
                assert(path_bytes(u[k]) == path_bytes(t[k]));
            } else {
                assert(u[k] == t[k]);
            }
        },
        None => {
            assert(u[k] == t[k]);
        },
    }
}

proof fn lemma_register_has<H>(t: Seq<Route<H>>, r: Route<H>)
    ensures
        exists|i: int|
            0 <= i < register(t, r).len() && path_bytes(#[trigger] register(t, r)[i])
                == path_bytes(r),
{
    lemma_exact_from_found(t, path_bytes(r), 0);
    let u = register(t, r);
    match exact_from(t, path_bytes(r), 0) {
        Some(i) => {
            assert(u[i] == r);
        },
        None => {
            assert(u[t.len() as int] == r);
        },
    }
}

/// Registering routes in turn keeps each path at most once.
pub proof fn lemma_table_unique<H>(rs: Seq<Route<H>>, m: Method)
    ensures
        unique_paths(table_of(rs, m)),
    decreases rs.len(),
{
    if rs.len() > 0 {
        lemma_table_unique(rs.drop_last(), m);
        if rs.last().method == m {
            lemma_register_unique(table_of(rs.drop_last(), m), rs.last());
        }
    }
}

/// Every registered route's path has a route in its method's table.
pub proof fn lemma_table_has_path<H>(rs: Seq<Route<H>>, m: Method, j: int)
    requires
        0 <= j < rs.len(),
        rs[j].method == m,
    ensures
        exists|i: int|
            0 <= i < table_of(rs, m).len() && path_bytes(#[trigger] table_of(rs, m)[i])
                == path_bytes(rs[j]),
    decreases rs.len(),
{
    let prev = table_of(rs.drop_last(), m);
    if j == rs.len() - 1 {
        assert(rs.last() == rs[j]);
        assert(table_of(rs, m) == register(prev, rs.last()));
        lemma_register_has(prev, rs.last());
    } else {
        assert(rs.drop_last()[j] == rs[j]);
        lemma_table_has_path(rs.drop_last(), m, j);
        let k = choose|k: int|
            0 <= k < prev.len() && path_bytes(#[trigger] prev[k]) == path_bytes(rs[j]);
        if rs.last().method == m {
            assert(table_of(rs, m) == register(prev, rs.last()));
            lemma_register_keeps(prev, rs.last(), k);
        } else {
            assert(table_of(rs, m) == prev);
            assert(0 <= k < table_of(rs, m).len() && path_bytes(table_of(rs, m)[k]) == path_bytes(
                rs[j],
            ));
        }
    }
}

/// Among registered routes, an exact path always wins: when one of the
/// routes handed to the table has the normalized request path as its path,
/// the request is served by the route registered for exactly that path,
/// never by a wildcard route.
pub proof fn lemma_registered_exact_wins<H>(rs: Seq<Route<H>>, m: Method, j: int, p: Seq<u8>)
    requires
        0 <= j < rs.len(),
        rs[j].method == m,
        path_bytes(rs[j]) == normalize(p),
    ensures
        route_index(table_of(rs, m), p) matches Some(i) && path_bytes(table_of(rs, m)[i])
            == normalize(p),
{
    let t = table_of(rs, m);
    lemma_table_unique(rs, m);
    lemma_table_has_path(rs, m, j);
    let i = choose|i: int| 0 <= i < t.len() && path_bytes(#[trigger] t[i]) == path_bytes(rs[j]);
    lemma_exact_wins(t, p, i);
}

} // verus!
