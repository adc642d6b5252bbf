use tinyhttp::headers::HeaderMap;
use tinyhttp::request::Request;
use tinyhttp::response::Response;

#[test]
fn build_request() {
    let mut headers = HeaderMap::new();
    headers.set("content-type", "text/plain");

    let request = Request::new(
        b"Hello, World!".to_vec(),
        headers,
        vec![
            "GET".to_string(),
            "/test".to_string(),
            "HTTP/1.1".to_string(),
        ],
        None,
    );
    assert_eq!(
        *request.get_parsed_body().unwrap(),
        "Hello, World!".to_string()
    )
}

#[test]
fn build_response() {
    let response = Response::new()
        .body(b"1 2 3 test test...".to_vec())
        .status_line("HTTP/1.1 200 OK");

    assert_eq!(
        String::from_utf8(response.body.unwrap()).unwrap(),
        String::from("1 2 3 test test...")
    );
}
