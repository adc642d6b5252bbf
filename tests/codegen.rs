use tinyhttp::config::{Reply, Routes};
use tinyhttp::headers::HeaderMap;
use tinyhttp::request::Request;
use tinyhttp::route::{BasicGetRoute, PostRouteWithReq};

/// A route handler given as a plain function.
type FnHandler = fn(Option<Request>) -> Reply;

fn get(_req: Option<Request>) -> Reply {
    Reply::Bytes("Hello Test?".as_bytes().to_vec())
}

fn post(body: Option<Request>) -> Reply {
    let body = body.unwrap();
    let headers = body.get_headers();
    Reply::Bytes(
        format!(
            "Accept-Encoding: {}",
            headers.get("Accept-Encoding").unwrap()
        )
        .into_bytes(),
    )
}

#[test]
fn test_codegen() {
    let get_route = BasicGetRoute::new()
        .set_path("/")
        .set_body(get as FnHandler)
        .build()
        .unwrap();
    let post_route = PostRouteWithReq::new()
        .set_path("/")
        .set_body(post as FnHandler)
        .build()
        .unwrap();

    let routes = Routes::new(vec![get_route, post_route]).get_stream();
    assert!(routes.first().unwrap().wildcard().is_none());

    let mut headers = HeaderMap::new();
    headers.set("Accept-Encoding", "gzip");
    let request = Request::new(
        b"Hello".to_vec(),
        headers,
        vec!["GET".to_string(), "/".to_string(), "HTTP/1.1".to_string()],
        None,
    );
    assert_eq!(
        b"Hello Test?".to_vec(),
        routes.first().unwrap().to_res(request.clone()).body.unwrap()
    );

    assert_eq!(
        b"Accept-Encoding: gzip".to_vec(),
        routes.last().unwrap().to_res(request).body.unwrap()
    );
}
