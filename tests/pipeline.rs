use std::io::Read;

use tinyhttp::config::{Config, Method, Reply, Routes};
use tinyhttp::decode::{decode, read_step, Decoded, ReadStep};
use tinyhttp::headers::HeaderMap;
use tinyhttp::http::{
    accepts_gzip, build_res, error_response, not_found, prepare, route_request, static_plan,
    static_response, Dispatch, FsProbe, Resolved, StaticPlan,
};
use tinyhttp::request::{Request, RequestError};
use tinyhttp::response::Response;
use tinyhttp::route::{BasicGetRoute, BasicPostRoute, GetRouteWithReq, PostRouteWithReqAndRes};

/// A route handler given as a plain function.
type FnHandler = fn(Option<Request>) -> Reply;

fn hello(_req: Option<Request>) -> Reply {
    Reply::Bytes(b"Hello, there!\n".to_vec())
}

fn echo(req: Option<Request>) -> Reply {
    Reply::Bytes(req.unwrap().get_raw_body().to_vec())
}

fn exact(_req: Option<Request>) -> Reply {
    Reply::Bytes(b"exact".to_vec())
}

fn show_wildcard(req: Option<Request>) -> Reply {
    let req = req.unwrap();
    Reply::Bytes(format!("got: {}", req.get_wildcard().unwrap()).into_bytes())
}

fn full(_req: Option<Request>) -> Reply {
    Reply::Full(
        Response::new()
            .status_line("HTTP/1.1 201 Created")
            .mime("application/json")
            .body(b"{}".to_vec()),
    )
}

fn complete(bytes: &[u8]) -> (Request, usize) {
    match decode(bytes) {
        Decoded::Complete(req, n) => (req, n),
        _ => panic!("request should be complete"),
    }
}

fn invalid(bytes: &[u8]) -> RequestError {
    match decode(bytes) {
        Decoded::Invalid(e) => e,
        _ => panic!("request should be invalid"),
    }
}

fn is_partial(bytes: &[u8]) -> bool {
    matches!(decode(bytes), Decoded::Partial)
}

fn response_of(resolved: Resolved) -> Response {
    match resolved {
        Resolved::Response(r) => r,
        Resolved::Static(_) => panic!("expected a response"),
    }
}

/// Splits wire bytes into status line, headers and body.
fn parse_wire(bytes: &[u8]) -> (String, Vec<(String, String)>, Vec<u8>) {
    let end = bytes.windows(4).position(|w| w == b"\r\n\r\n").unwrap();
    let head = std::str::from_utf8(&bytes[..end]).unwrap();
    let mut lines = head.split("\r\n");
    let status = lines.next().unwrap().to_string();
    let headers = lines
        .map(|l| {
            let (n, v) = l.split_once(": ").unwrap();
            (n.to_string(), v.to_string())
        })
        .collect();
    (status, headers, bytes[end + 4..].to_vec())
}

fn header<'a>(headers: &'a [(String, String)], name: &str) -> Option<&'a str> {
    headers
        .iter()
        .find(|(n, _)| n.eq_ignore_ascii_case(name))
        .map(|(_, v)| v.as_str())
}

fn scenario_config() -> Config<FnHandler> {
    let get = BasicGetRoute::new().set_path("/").set_body(hello as FnHandler).build().unwrap();
    let post = BasicPostRoute::new()
        .set_path("/")
        .set_is_args(true)
        .set_body_with(echo as FnHandler)
        .build()
        .unwrap();
    Config::new().routes(Routes::new(vec![get, post]))
}

fn serve(config: &Config<FnHandler>, bytes: &[u8]) -> Vec<u8> {
    let (req, _) = complete(bytes);
    let compress = accepts_gzip(config, req.get_headers());
    let resp = response_of(build_res(req, config));
    prepare(resp, config, compress).send().unwrap()
}

#[test]
fn decode_simple_get() {
    let bytes = b"GET /index.html HTTP/1.1\r\nHost: example.com\r\nAccept: */*\r\n\r\n";
    let (req, n) = complete(bytes);
    assert_eq!(n, bytes.len());
    assert_eq!(req.get_status_line(), &["GET", "/index.html", "HTTP/1.1"]);
    assert_eq!(req.get_headers().get("host"), Some("example.com"));
    assert_eq!(req.get_headers().get("accept"), Some("*/*"));
    assert!(req.get_raw_body().is_empty());
    assert!(req.get_wildcard().is_none());
}

#[test]
fn decode_splits_status_line_on_white_space() {
    let (req, _) = complete(b"GET  /a\tHTTP/1.1 \r\n\r\n");
    assert_eq!(req.get_status_line(), &["GET", "/a", "HTTP/1.1"]);
}

#[test]
fn decode_without_headers() {
    let (req, n) = complete(b"GET / HTTP/1.1\r\n\r\n");
    assert_eq!(n, 18);
    assert_eq!(req.get_headers().len(), 0);
}

#[test]
fn decode_reads_content_length_across_segments() {
    let bytes = b"POST / HTTP/1.1\r\nContent-Length: 5\r\n\r\nWorld";
    for cut in 0..bytes.len() {
        assert!(is_partial(&bytes[..cut]), "prefix of {} bytes", cut);
    }
    let (req, n) = complete(bytes);
    assert_eq!(req.get_raw_body(), b"World");
    assert_eq!(n, bytes.len());

    let mut longer = bytes.to_vec();
    longer.extend_from_slice(b"GET / HTTP/1.1\r\n\r\n");
    let (req2, n2) = complete(&longer);
    assert_eq!(req2.get_raw_body(), b"World");
    assert_eq!(n2, n);
}

#[test]
fn decode_header_values_are_trimmed_and_last_wins() {
    let (req, _) = complete(b"GET / HTTP/1.1\r\nX-A:   one  \r\nx-a: two\r\n\r\n");
    assert_eq!(req.get_headers().get("X-A"), Some("two"));
    assert_eq!(req.get_headers().len(), 1);
}

#[test]
fn header_lookup_ignores_case() {
    let (req, _) = complete(b"GET / HTTP/1.1\r\nAccept-Encoding: gzip\r\n\r\n");
    assert_eq!(req.get_headers().get("accept-encoding"), Some("gzip"));
    assert_eq!(req.get_headers().get("ACCEPT-ENCODING"), Some("gzip"));
    assert!(req.get_headers().contains("Accept-encoding"));
    assert!(!req.get_headers().contains("accept"));
}

#[test]
fn decode_errors() {
    assert_eq!(invalid(b"GARBAGE\r\n\r\n"), RequestError::StatusLineErr);
    assert_eq!(invalid(b"GET /\r\n\r\n"), RequestError::StatusLineErr);
    assert_eq!(invalid(b"GET / HTTP/1.1 extra\r\n\r\n"), RequestError::StatusLineErr);
    assert_eq!(invalid(b"GET / HTTP/1.1\r\nNoColon\r\n\r\n"), RequestError::HeadersErr);
    assert_eq!(
        invalid(b"POST / HTTP/1.1\r\nContent-Length: abc\r\n\r\n"),
        RequestError::HeadersErr
    );
    assert_eq!(
        invalid(b"POST / HTTP/1.1\r\nContent-Length: 18446744073709551616\r\n\r\n"),
        RequestError::HeadersErr
    );
    assert!(is_partial(b"GET / HTTP/1.1\r\nHost: x\r\n"));
    assert!(is_partial(b"GET / HTT"));
}

#[test]
fn error_response_is_plain_text() {
    let r = error_response(RequestError::HeadersErr);
    assert_eq!(r.body.as_deref(), Some(&b"failed to parse headers"[..]));
    assert_eq!(r.mime.as_deref(), Some("text/plain"));
    assert_eq!(r.status_line, b"HTTP/1.1 400 BAD REQUEST\r\n".to_vec());
    assert_eq!(RequestError::StatusLineErr.message(), "failed to parse status line");
}

#[test]
fn exact_route_beats_wildcard() {
    let wild = GetRouteWithReq::new()
        .set_path("/items")
        .set_wildcard("id".to_string())
        .set_body(show_wildcard as FnHandler)
        .build()
        .unwrap();
    let exact_route = BasicGetRoute::new()
        .set_path("/items/special")
        .set_body(exact as FnHandler)
        .build()
        .unwrap();
    let config = Config::new().routes(Routes::new(vec![wild, exact_route]));
    assert_eq!(config.get_routes("/items/special").unwrap().get_path(), "/items/special");
    assert_eq!(config.get_routes("/items/other").unwrap().get_path(), "/items");
    let (req, _) = complete(b"GET /items/special HTTP/1.1\r\n\r\n");
    let r = response_of(build_res(req, &config));
    assert_eq!(r.body.unwrap(), b"exact".to_vec());
}

#[test]
fn trailing_slash_is_ignored() {
    let route = BasicGetRoute::new().set_path("/foo").set_body(hello as FnHandler).build().unwrap();
    let root = BasicGetRoute::new().set_path("/").set_body(exact as FnHandler).build().unwrap();
    let config = Config::new().routes(Routes::new(vec![route, root]));
    assert_eq!(config.get_routes("/foo/").unwrap().get_path(), "/foo");
    assert_eq!(config.get_routes("/foo").unwrap().get_path(), "/foo");
    assert_eq!(config.get_routes("/").unwrap().get_path(), "/");
    assert!(config.get_routes("/bar").is_none());
}

#[test]
fn wildcard_capture() {
    let wild = GetRouteWithReq::new()
        .set_path("/wildcard")
        .set_wildcard("id".to_string())
        .set_body(show_wildcard as FnHandler)
        .build()
        .unwrap();
    let config = Config::new().routes(Routes::new(vec![wild]));
    let (req, _) = complete(b"GET /wildcard/42 HTTP/1.1\r\n\r\n");
    match route_request(req, &config) {
        Dispatch::Handler(route, req) => {
            assert_eq!(route.get_path(), "/wildcard");
            assert_eq!(req.get_wildcard().map(|s| s.as_str()), Some("42"));
        }
        _ => panic!("the wildcard route should match"),
    }
    let (req, _) = complete(b"GET /wildcard/tinyhttp HTTP/1.1\r\n\r\n");
    let r = response_of(build_res(req, &config));
    assert_eq!(r.body.unwrap(), b"got: tinyhttp".to_vec());
}

#[test]
fn later_route_with_same_path_replaces_earlier() {
    let a = BasicGetRoute::new().set_path("/x").set_body(hello as FnHandler).build().unwrap();
    let b = BasicGetRoute::new().set_path("/x").set_body(exact as FnHandler).build().unwrap();
    let config = Config::new().routes(Routes::new(vec![a, b]));
    let (req, _) = complete(b"GET /x HTTP/1.1\r\n\r\n");
    assert_eq!(response_of(build_res(req, &config)).body.unwrap(), b"exact".to_vec());
}

#[test]
fn round_trip_of_encoded_response() {
    let config: Config<FnHandler> = Config::new();
    let r = Response::new()
        .status_line("HTTP/1.1 200 OK")
        .body(b"hi".to_vec())
        .mime("text/plain");
    let bytes = prepare(r, &config, false).send().unwrap();
    let (status, headers, body) = parse_wire(&bytes);
    assert_eq!(status, "HTTP/1.1 200 OK");
    assert_eq!(status.split(' ').nth(1), Some("200"));
    assert_eq!(body, b"hi".to_vec());
    assert_eq!(header(&headers, "Content-Type"), Some("text/plain"));
    assert_eq!(header(&headers, "tinyhttp"), Some("0.1.0"));
}

#[test]
fn unmatched_get_without_mount_is_404() {
    let config = scenario_config();
    let (req, _) = complete(b"GET /missing HTTP/1.1\r\n\r\n");
    let r = response_of(build_res(req, &config));
    assert_eq!(r.status_line, b"HTTP/1.1 404 NOT FOUND\r\n".to_vec());
    assert_eq!(r.body.unwrap(), b"<h1>404 Not Found</h1>".to_vec());
    let (status, _, body) = parse_wire(&serve(&config, b"GET /missing HTTP/1.1\r\n\r\n"));
    assert!(status.contains(" 404 "));
    assert_eq!(body, b"<h1>404 Not Found</h1>".to_vec());
}

#[test]
fn unmatched_post_and_unknown_method() {
    let config = scenario_config().mount_point("/srv");
    let (req, _) = complete(b"POST /missing HTTP/1.1\r\n\r\n");
    let r = response_of(build_res(req, &config));
    assert_eq!(r.body.unwrap(), b"<h1>404 Not Found</h1>".to_vec());
    let (req, _) = complete(b"PUT / HTTP/1.1\r\n\r\n");
    let r = response_of(build_res(req, &config));
    assert_eq!(r.status_line, b"HTTP/1.1 404 NOT FOUND\r\n".to_vec());
    assert_eq!(r.body.unwrap(), b"<h1>Unknown Error Occurred</h1>".to_vec());
}

#[test]
fn unmatched_get_with_mount_goes_static() {
    let config = scenario_config().mount_point("/srv");
    let (req, _) = complete(b"GET /missing.css HTTP/1.1\r\n\r\n");
    match build_res(req, &config) {
        Resolved::Static(p) => assert_eq!(p, "/srv/missing.css"),
        Resolved::Response(_) => panic!("expected the static fallback"),
    }
}

#[test]
fn gzip_when_accepted() {
    let config = scenario_config().gzip(true);
    let plain = serve(&config, b"GET / HTTP/1.1\r\n\r\n");
    let (_, headers, body) = parse_wire(&plain);
    assert_eq!(body, b"Hello, there!\n".to_vec());
    assert_eq!(header(&headers, "Content-Encoding"), None);

    let zipped = serve(&config, b"GET / HTTP/1.1\r\nAccept-Encoding: deflate, gzip\r\n\r\n");
    let (_, headers, body) = parse_wire(&zipped);
    assert_eq!(header(&headers, "Content-Encoding"), Some("gzip"));
    assert_ne!(body, b"Hello, there!\n".to_vec());
    let mut out = Vec::new();
    flate2::read::GzDecoder::new(&body[..]).read_to_end(&mut out).unwrap();
    assert_eq!(out, b"Hello, there!\n".to_vec());
}

#[test]
fn gzip_only_when_enabled_and_listed() {
    let enabled = scenario_config().gzip(true);
    let disabled = scenario_config();
    let (req, _) = complete(b"GET / HTTP/1.1\r\nAccept-Encoding: gzip\r\n\r\n");
    assert!(accepts_gzip(&enabled, req.get_headers()));
    assert!(!accepts_gzip(&disabled, req.get_headers()));
    let (req, _) = complete(b"GET / HTTP/1.1\r\nAccept-Encoding: gzipx, br\r\n\r\n");
    assert!(!accepts_gzip(&enabled, req.get_headers()));
    let (req, _) = complete(b"GET / HTTP/1.1\r\n\r\n");
    assert!(!accepts_gzip(&enabled, req.get_headers()));
}

#[test]
fn hello_and_echo_scenario() {
    let config = scenario_config();
    let (status, headers, body) = parse_wire(&serve(&config, b"GET / HTTP/1.1\r\n\r\n"));
    assert_eq!(status, "HTTP/1.1 200 OK");
    assert_eq!(body, b"Hello, there!\n".to_vec());
    assert_eq!(header(&headers, "Content-Type"), Some("text/plain"));

    let (status, _, body) =
        parse_wire(&serve(&config, b"POST / HTTP/1.1\r\nContent-Length: 5\r\n\r\nWorld"));
    assert_eq!(status, "HTTP/1.1 200 OK");
    assert!(String::from_utf8(body).unwrap().contains("World"));
}

#[test]
fn full_response_handler_is_sent_as_is() {
    let route = PostRouteWithReqAndRes::new()
        .set_path("/api")
        .set_body(full as FnHandler)
        .build()
        .unwrap();
    let config = Config::new().routes(Routes::new(vec![route]));
    let (status, headers, body) = parse_wire(&serve(&config, b"POST /api HTTP/1.1\r\n\r\n"));
    assert_eq!(status, "HTTP/1.1 201 Created");
    assert_eq!(header(&headers, "Content-Type"), Some("application/json"));
    assert_eq!(body, b"{}".to_vec());
}

#[test]
fn content_type_is_sniffed() {
    let config: Config<FnHandler> = Config::new();
    let png = vec![0x89, 0x50, 0x4E, 0x47, 0x0D, 0x0A, 0x1A, 0x0A, 0, 0, 0, 0x0D];
    let r = Reply::Bytes(png).into_response();
    let (_, headers, _) = parse_wire(&prepare(r, &config, false).send().unwrap());
    assert_eq!(header(&headers, "Content-Type"), Some("image/png"));

    let r = Reply::Bytes(b"just text".to_vec()).into_response();
    let (_, headers, _) = parse_wire(&prepare(r, &config, false).send().unwrap());
    assert_eq!(header(&headers, "Content-Type"), Some("text/plain"));
}

#[test]
fn extra_headers_are_sent() {
    let config: Config<FnHandler> = Config::new().headers(vec![
        "Access-Control-Allow-Origin: *".to_string(),
        "not a header".to_string(),
        "X-Test: yes".to_string(),
    ]);
    let extra = config.get_headers().unwrap();
    assert_eq!(extra.len(), 2);
    assert_eq!(extra.get("x-test"), Some("yes"));
    let r = Reply::Bytes(b"hi".to_vec()).into_response();
    let (_, headers, _) = parse_wire(&prepare(r, &config, false).send().unwrap());
    assert_eq!(header(&headers, "Access-Control-Allow-Origin"), Some("*"));
    assert_eq!(header(&headers, "X-Test"), Some("yes"));
}

#[test]
fn response_without_body_is_not_sent() {
    let r = Response::new().status_line("HTTP/1.1 200 OK");
    assert!(r.send().is_none());
}

#[test]
fn status_line_is_trimmed() {
    let r = Response::new().status_line("  HTTP/1.1 200 OK\r\n");
    assert_eq!(r.status_line, b"HTTP/1.1 200 OK\r\n".to_vec());
}

#[test]
fn static_plan_rules() {
    let none = FsProbe { is_file: false, is_dir: false, dir_index_is_file: false, html_is_file: false };
    match static_plan("/srv", "/srv/app/page", true, none) {
        StaticPlan::Serve(f, m) => {
            assert_eq!(f, "/srv/index.html");
            assert_eq!(m, "text/html");
        }
        _ => panic!("SPA mode serves index.html"),
    }
    let file = FsProbe { is_file: true, ..none };
    match static_plan("/srv", "/srv/style.css", true, file) {
        StaticPlan::Serve(f, m) => {
            assert_eq!(f, "/srv/style.css");
            assert_eq!(m, "text/css");
        }
        _ => panic!("an existing file is served"),
    }
    match static_plan("/srv", "/srv/data.unknownext", false, file) {
        StaticPlan::Serve(_, m) => assert_eq!(m, "text/plain"),
        _ => panic!("an existing file is served"),
    }
    let dir = FsProbe { is_dir: true, ..none };
    assert!(matches!(static_plan("/srv", "/srv/docs", false, dir), StaticPlan::DirWithoutIndex));
    let dir_index = FsProbe { is_dir: true, dir_index_is_file: true, ..none };
    match static_plan("/srv", "/srv/docs", false, dir_index) {
        StaticPlan::Serve(f, _) => assert_eq!(f, "/srv/docs/index.html"),
        _ => panic!("a directory's index is served"),
    }
    let html = FsProbe { html_is_file: true, ..none };
    match static_plan("/srv", "/srv/about", false, html) {
        StaticPlan::Serve(f, m) => {
            assert_eq!(f, "/srv/about.html");
            assert_eq!(m, "text/html");
        }
        _ => panic!("the .html file is served"),
    }
    assert!(matches!(static_plan("/srv", "/srv/nothing", false, none), StaticPlan::NotFound));
}

#[test]
fn static_responses() {
    let plan = StaticPlan::Serve("/srv/a.txt".to_string(), "text/plain".to_string());
    let r = static_response(plan.clone(), Some(b"abc".to_vec()));
    assert_eq!(r.status_line, b"HTTP/1.1 200 OK\r\n".to_vec());
    assert_eq!(r.body.unwrap(), b"abc".to_vec());
    let r = static_response(plan, None);
    assert_eq!(r.status_line, b"HTTP/1.1 404 NOT FOUND\r\n".to_vec());
    let r = static_response(StaticPlan::DirWithoutIndex, None);
    assert_eq!(r.status_line, b"HTTP/1.1 404 NOT FOUND\r\n".to_vec());
    assert_eq!(r.body.unwrap(), b"<h1>404 Not Found</h1>".to_vec());
    let r = static_response(StaticPlan::NotFound, None);
    assert_eq!(r.body.unwrap(), not_found().body.unwrap());
}

#[test]
fn request_accessors() {
    let (req, _) = complete(b"POST /p HTTP/1.1\r\nContent-Length: 2\r\n\r\n\xff\xfe");
    assert!(req.get_parsed_body().is_none());
    assert_eq!(req.get_raw_body(), &[0xff, 0xfe]);
    assert!(!req.get_http2());
    let req = req.set_http2(true);
    assert!(req.get_http2());
}

#[test]
fn config_settings() {
    let config: Config<FnHandler> = Config::new()
        .mount_point(".")
        .spa(true)
        .gzip(true)
        .http2(true)
        .debug()
        .ssl("chain.pem".to_string(), "key.pem".to_string());
    assert_eq!(config.get_mount().map(|s| s.as_str()), Some("."));
    assert!(config.get_spa());
    assert!(config.get_gzip());
    assert!(config.get_debug());
    assert!(config.ssl);
    assert!(config.get_headers().is_none());
    assert!(config.post_routes("/").is_none());
}

#[test]
fn route_builders() {
    let r = BasicGetRoute::new()
        .set_path("/a")
        .set_method(Method::POST)
        .set_is_args(false)
        .set_is_ret_res(true)
        .set_body_with_res(full as FnHandler)
        .build()
        .unwrap();
    assert_eq!(r.get_method(), Method::POST);
    assert_eq!(r.kind, tinyhttp::config::HandlerKind::WithRes);
    assert!(BasicGetRoute::<FnHandler>::new().set_path("/b").build().is_none());
    let g = GetRouteWithReq::new().set_body(echo as FnHandler);
    assert!(g.get_body().is_some());
    assert!(g.build().is_none());
    let mut headers = HeaderMap::new();
    headers.set("A", "1");
    let cloned = headers.clone();
    assert_eq!(cloned.get("a"), Some("1"));
}

#[test]
fn read_step_decisions() {
    assert!(matches!(read_step(b"GET / HT", false), ReadStep::ReadMore));
    assert!(matches!(
        read_step(b"GET / HT", true),
        ReadStep::Reject(RequestError::StatusLineErr)
    ));
    assert!(matches!(
        read_step(b"GET / HTTP/1.1\r\nHost: a\r\n", true),
        ReadStep::Reject(RequestError::HeadersErr)
    ));
    assert!(matches!(
        read_step(b"POST / HTTP/1.1\r\nContent-Length: 9\r\n\r\nabc", true),
        ReadStep::Reject(RequestError::HeadersErr)
    ));
    match read_step(b"GET /a HTTP/1.1\r\n\r\n", false) {
        ReadStep::Request(req) => assert_eq!(req.get_status_line()[1], "/a"),
        _ => panic!("the request is complete"),
    }
    let big = vec![b'a'; tinyhttp::decode::MAX_REQUEST_LEN];
    assert!(matches!(read_step(&big, false), ReadStep::Reject(RequestError::StatusLineErr)));
}
