use webserver::{
    create_response, get_path_response, handle_input, parse_path, parse_request,
    serialize_response, Headers, HttpMethod, HttpRequest, HttpResponse, HttpStatusCode,
    HttpVersion, LogLevel, ParseError, Parts, Route,
};

const ROOT: &str = "/srv/www";

fn reply(route: Route) -> HttpResponse {
    match route {
        Route::Reply(r) => r,
        Route::ReadFile(p) => panic!("expected a reply, got a file read of {}", p),
    }
}

fn file(route: Route) -> String {
    match route {
        Route::ReadFile(p) => p,
        Route::Reply(r) => panic!("expected a file read, got status {}", r.head.status.code()),
    }
}

fn content_type(r: &HttpResponse) -> Option<String> {
    r.head.headers.get(&"Content-Type".to_string()).cloned()
}

#[test]
fn parses_echo_request_line() {
    let req = HttpRequest::from_str("GET /echo/abc HTTP/1.1\r\n\r\n").ok().unwrap();
    assert_eq!(req.method, HttpMethod::GET);
    assert_eq!(req.path, "/echo/abc");
    assert_eq!(req.version, "HTTP/1.1");
    assert_eq!(req.headers.len(), 0);
    assert_eq!(req.body, "");
}

#[test]
fn echo_route_returns_rest_of_path() {
    let r = reply(parse_request(ROOT, "GET /echo/abc HTTP/1.1\r\n\r\n"));
    assert_eq!(r.head.status, HttpStatusCode::Success);
    assert_eq!(r.head.status.code(), 200);
    assert_eq!(r.body, "abc");
    assert_eq!(content_type(&r), Some("text/plain".to_string()));
}

#[test]
fn echo_without_rest_is_empty() {
    let r = reply(parse_request(ROOT, "GET /echo HTTP/1.1\r\n\r\n"));
    assert_eq!(r.head.status, HttpStatusCode::Success);
    assert_eq!(r.body, "");
}

#[test]
fn user_agent_route_returns_header() {
    let r = reply(parse_request(
        ROOT,
        "GET /user-agent HTTP/1.1\r\nHost: localhost\r\nUser-Agent: test-client\r\n\r\n",
    ));
    assert_eq!(r.head.status, HttpStatusCode::Success);
    assert_eq!(r.body, "test-client");
    assert_eq!(content_type(&r), Some("text/plain".to_string()));
}

#[test]
fn user_agent_route_without_header_is_server_error() {
    let r = reply(parse_request(ROOT, "GET /user-agent HTTP/1.1\r\n\r\n"));
    assert_eq!(r.head.status, HttpStatusCode::InternalServerError);
    assert_eq!(r.body, "");
}

#[test]
fn missing_file_is_not_found() {
    let path = file(parse_request(ROOT, "GET /does-not-exist HTTP/1.1\r\n\r\n"));
    assert_eq!(path, "/srv/www/does-not-exist");
    let r = get_path_response(None);
    assert_eq!(r.head.status, HttpStatusCode::NotFound);
    assert_eq!(r.head.status.code(), 404);
    assert_eq!(r.body, "");
    assert_eq!(r.head.headers.len(), 0);
}

#[test]
fn root_path_resolves_to_index() {
    let path = file(parse_request(ROOT, "GET / HTTP/1.1\r\n\r\n"));
    assert_eq!(path, "/srv/www/index.html");
    let missing = get_path_response(None);
    assert_eq!(missing.head.status, HttpStatusCode::NotFound);
}

#[test]
fn found_file_is_html() {
    let r = get_path_response(Some("<p>hi</p>".to_string()));
    assert_eq!(r.head.status, HttpStatusCode::Success);
    assert_eq!(r.body, "<p>hi</p>");
    assert_eq!(content_type(&r), Some("text/html".to_string()));
}

#[test]
fn patch_is_not_implemented_for_any_path() {
    for path in ["/", "/echo/abc", "/user-agent", "/index.html"] {
        let text = format!("PATCH {} HTTP/1.1\r\n\r\n", path);
        let r = reply(parse_request(ROOT, &text));
        assert_eq!(r.head.status, HttpStatusCode::NotImplemented);
        assert_eq!(r.head.status.code(), 501);
        assert_eq!(r.body, "");
    }
}

#[test]
fn unknown_method_other_than_patch_is_not_acceptable() {
    for method in ["FOO", "get", "PATCHX", "BREW"] {
        let text = format!("{} / HTTP/1.1\r\n\r\n", method);
        assert_eq!(HttpRequest::from_str(&text).err(), Some(ParseError::InvalidMethod));
        let r = reply(parse_request(ROOT, &text));
        assert_eq!(r.head.status, HttpStatusCode::NotAcceptable);
        assert_eq!(r.head.status.code(), 406);
        assert_eq!(r.body, "");
    }
}

#[test]
fn patch_with_bad_headers_is_still_not_implemented() {
    let r = reply(parse_request(ROOT, "PATCH /x HTTP/1.1\r\nno colon here\r\n\r\n"));
    assert_eq!(r.head.status, HttpStatusCode::NotImplemented);
}

#[test]
fn known_methods_other_than_get_are_not_implemented() {
    for m in ["POST", "PUT", "DELETE", "HEAD", "OPTIONS", "TRACE", "CONNECT"] {
        let text = format!("{} /echo/abc HTTP/1.1\r\n\r\n", m);
        let r = reply(parse_request(ROOT, &text));
        assert_eq!(r.head.status, HttpStatusCode::NotImplemented);
    }
}

#[test]
fn empty_request_is_not_acceptable() {
    assert_eq!(HttpRequest::from_str("").err(), Some(ParseError::Empty));
    let r = reply(parse_request(ROOT, ""));
    assert_eq!(r.head.status, HttpStatusCode::NotAcceptable);
    assert_eq!(r.head.status.code(), 406);
    assert_eq!(r.body, "");
}

#[test]
fn short_request_line_is_not_acceptable() {
    assert_eq!(
        HttpRequest::from_str("GET /\r\n\r\n").err(),
        Some(ParseError::MalformedRequestLine)
    );
    let r = reply(parse_request(ROOT, "GET /\r\n\r\n"));
    assert_eq!(r.head.status, HttpStatusCode::NotAcceptable);
    let r = reply(parse_request(ROOT, "GET\r\n"));
    assert_eq!(r.head.status, HttpStatusCode::NotAcceptable);
}

#[test]
fn long_request_line_is_rejected() {
    assert_eq!(
        HttpRequest::from_str("GET / HTTP/1.1 extra\r\n\r\n").err(),
        Some(ParseError::MalformedRequestLine)
    );
}

#[test]
fn unknown_method_is_a_parse_error() {
    assert_eq!(
        HttpRequest::from_str("PATCH / HTTP/1.1\r\n\r\n").err(),
        Some(ParseError::InvalidMethod)
    );
    assert_eq!(
        HttpRequest::from_str("get / HTTP/1.1\r\n\r\n").err(),
        Some(ParseError::InvalidMethod)
    );
}

#[test]
fn header_without_colon_is_rejected() {
    assert_eq!(
        HttpRequest::from_str("GET / HTTP/1.1\r\nBroken header\r\n\r\n").err(),
        Some(ParseError::MalformedHeader)
    );
    let r = reply(parse_request(ROOT, "GET / HTTP/1.1\r\nBroken header\r\n\r\n"));
    assert_eq!(r.head.status, HttpStatusCode::NotAcceptable);
}

#[test]
fn headers_are_trimmed_lowercased_and_last_wins() {
    let req = HttpRequest::from_str(
        "GET / HTTP/1.1\r\n  X-Name :  first \r\nx-name: second\r\nHost: a:b\r\n\r\n",
    )
    .ok()
    .unwrap();
    assert_eq!(req.headers.len(), 2);
    assert_eq!(req.headers.get(&"x-name".to_string()), Some(&"second".to_string()));
    assert_eq!(req.headers.get(&"host".to_string()), Some(&"a:b".to_string()));
    assert_eq!(req.headers.get(&"X-Name".to_string()), None);
    assert_eq!(req.headers.name_at(0), "x-name");
    assert_eq!(req.headers.value_at(1), "a:b");
}

#[test]
fn post_keeps_body_lines() {
    let req = HttpRequest::from_str("POST /form HTTP/1.1\r\nA: b\r\n\r\nhello\r\n\r\nworld\r\n")
        .ok()
        .unwrap();
    assert_eq!(req.method, HttpMethod::POST);
    assert_eq!(req.body, "helloworld");
}

#[test]
fn get_drops_body_lines() {
    let req = HttpRequest::from_str("GET / HTTP/1.1\r\n\r\nignored\r\n").ok().unwrap();
    assert_eq!(req.body, "");
}

#[test]
fn lines_split_on_bare_newlines_too() {
    let req = HttpRequest::from_str("GET /x HTTP/1.0\nAccept: */*\n").ok().unwrap();
    assert_eq!(req.version, "HTTP/1.0");
    assert_eq!(req.headers.get(&"accept".to_string()), Some(&"*/*".to_string()));
}

#[test]
fn serializes_status_headers_and_body() {
    let r = create_response(HttpStatusCode::Success, Some("text/plain"), "abc".to_string());
    assert_eq!(
        serialize_response(&r),
        "HTTP/1.1 200 OK\r\nContent-Type: text/plain\r\n\r\nabc"
    );
    let r = create_response(HttpStatusCode::NotFound, None, String::new());
    assert_eq!(serialize_response(&r), "HTTP/1.1 404 Not Found\r\n\r\n");
}

#[test]
fn serializes_every_status() {
    let cases = [
        (HttpStatusCode::NotAcceptable, "HTTP/1.1 406 Not Acceptable\r\n\r\n"),
        (HttpStatusCode::InternalServerError, "HTTP/1.1 500 Internal Server Error\r\n\r\n"),
        (HttpStatusCode::NotImplemented, "HTTP/1.1 501 Not Implemented\r\n\r\n"),
    ];
    for (status, text) in cases {
        assert_eq!(serialize_response(&create_response(status, None, String::new())), text);
    }
}

#[test]
fn new_response_is_empty_ok() {
    let r = HttpResponse::new();
    assert_eq!(r.head.status, HttpStatusCode::Success);
    assert_eq!(r.head.version, HttpVersion::Http11);
    assert_eq!(r.head.headers.len(), 0);
    assert_eq!(r.body, "");
    let p = Parts::new();
    assert_eq!(p.status.reason(), "OK");
    assert_eq!(serialize_response(&r), "HTTP/1.1 200 OK\r\n\r\n");
}

#[test]
fn header_map_replaces_in_place() {
    let mut h = Headers::new();
    h.insert("a".to_string(), "1".to_string());
    h.insert("b".to_string(), "2".to_string());
    h.insert("a".to_string(), "3".to_string());
    assert_eq!(h.len(), 2);
    assert_eq!(h.name_at(0), "a");
    assert_eq!(h.value_at(0), "3");
    assert_eq!(h.get(&"b".to_string()), Some(&"2".to_string()));
}

#[test]
fn read_failure_is_server_error() {
    let r = reply(handle_input(ROOT, None));
    assert_eq!(r.head.status, HttpStatusCode::InternalServerError);
    assert_eq!(r.body, "");
}

#[test]
fn invalid_utf8_is_server_error() {
    let bytes: [u8; 4] = [0x47, 0xff, 0xfe, 0x20];
    let r = reply(handle_input(ROOT, Some(&bytes)));
    assert_eq!(r.head.status, HttpStatusCode::InternalServerError);
}

#[test]
fn valid_bytes_are_routed() {
    let r = reply(handle_input(ROOT, Some("GET /echo/héllo HTTP/1.1\r\n\r\n".as_bytes())));
    assert_eq!(r.head.status, HttpStatusCode::Success);
    assert_eq!(r.body, "héllo");
}

#[test]
fn file_path_joins_root_and_path() {
    assert_eq!(parse_path("/srv", "/a/b.txt"), "/srv/a/b.txt");
    assert_eq!(parse_path("/srv", "/docs/"), "/srv/docs/index.html");
    assert_eq!(parse_path("/srv/", ""), "/srv/index.html");
    assert_eq!(parse_path("", ""), "");
}

#[test]
fn method_tokens_round_trip() {
    for m in [
        HttpMethod::GET,
        HttpMethod::POST,
        HttpMethod::PUT,
        HttpMethod::DELETE,
        HttpMethod::HEAD,
        HttpMethod::OPTIONS,
        HttpMethod::TRACE,
        HttpMethod::CONNECT,
    ] {
        assert_eq!(HttpMethod::from_str(m.as_str()), Some(m));
    }
    assert_eq!(HttpMethod::from_str("PATCH"), None);
    assert_eq!(HttpMethod::from_str(""), None);
}

#[test]
fn status_codes_and_reasons() {
    assert_eq!(HttpStatusCode::NotAcceptable.code(), 406);
    assert_eq!(HttpStatusCode::InternalServerError.code(), 500);
    assert_eq!(HttpStatusCode::NotImplemented.reason(), "Not Implemented");
    assert_eq!(HttpStatusCode::NotFound.code_str(), "404");
}

#[test]
fn version_and_level_names() {
    assert_eq!(HttpVersion::Http09.as_str(), "HTTP/0.9");
    assert_eq!(HttpVersion::Http10.as_str(), "HTTP/1.0");
    assert_eq!(HttpVersion::H2.as_str(), "HTTP/2.0");
    assert_eq!(HttpVersion::H3.as_str(), "HTTP/3.0");
    assert_eq!(LogLevel::Info.as_str(), "Info");
    assert_eq!(LogLevel::Warning.as_str(), "Warning");
    assert_eq!(LogLevel::Error.as_str(), "Error");
    assert_eq!(LogLevel::Trace.as_str(), "Trace");
}
