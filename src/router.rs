use vstd::prelude::*;
use vstd::utf8::{decode_utf8, encode_utf8, encode_utf8_decode_utf8, valid_utf8};

use crate::method::HttpMethod;
use crate::request::{parse_spec, HttpRequest, ParseError, RequestView};
use crate::response::{HttpResponse, HttpStatusCode, HttpVersion};
use crate::text::{chars_of, lines_of, split_lines, split_words, text_eq, words_of};

verus! {

/// What the server does with a request: answer it at once, or read a file first.
pub enum Route {
    Reply(HttpResponse),
    ReadFile(String),
}

/// A routing decision, as mathematical values.
pub enum RouteView {
    Reply { status: HttpStatusCode, content_type: Option<Seq<char>>, body: Seq<char> },
    ReadFile(Seq<char>),
}

/// `Content-Type`
pub open spec fn content_type_name() -> Seq<char> {
    seq!['C', 'o', 'n', 't', 'e', 'n', 't', '-', 'T', 'y', 'p', 'e']
}

/// `text/plain`
pub open spec fn text_plain() -> Seq<char> {
    seq!['t', 'e', 'x', 't', '/', 'p', 'l', 'a', 'i', 'n']
}

/// `text/html`
pub open spec fn text_html() -> Seq<char> {
    seq!['t', 'e', 'x', 't', '/', 'h', 't', 'm', 'l']
}

/// `user-agent`, the header name under which a request's client is stored.
pub open spec fn user_agent_name() -> Seq<char> {
    seq!['u', 's', 'e', 'r', '-', 'a', 'g', 'e', 'n', 't']
}

/// `/user-agent`
pub open spec fn user_agent_path() -> Seq<char> {
    seq!['/', 'u', 's', 'e', 'r', '-', 'a', 'g', 'e', 'n', 't']
}

/// `/echo`
pub open spec fn echo_prefix() -> Seq<char> {
    seq!['/', 'e', 'c', 'h', 'o']
}

/// `index.html`
pub open spec fn index_file() -> Seq<char> {
    seq!['i', 'n', 'd', 'e', 'x', '.', 'h', 't', 'm', 'l']
}

/// A response of HTTP/1.1 with the given status and body, and a `Content-Type`
/// field exactly when a content type is given.
pub open spec fn is_reply(
    r: &HttpResponse,
    status: HttpStatusCode,
    content_type: Option<Seq<char>>,
    body: Seq<char>,
) -> bool {
    &&& r.head.status == status
    &&& r.head.version == HttpVersion::Http11
    &&& r.head.headers.pairs() == match content_type {
        Some(t) => seq![(content_type_name(), t)],
        None => Seq::<(Seq<char>, Seq<char>)>::empty(),
    }
    &&& r.body@ == body
}

/// `r` carries out the decision `v`.
pub open spec fn route_is(r: &Route, v: RouteView) -> bool {
    match v {
        RouteView::Reply { status, content_type, body } => match r {
            Route::Reply(resp) => is_reply(resp, status, content_type, body),
            Route::ReadFile(_) => false,
        },
        RouteView::ReadFile(p) => match r {
            Route::ReadFile(q) => q@ == p,
            Route::Reply(_) => false,
        },
    }
}

/// A reply with no content.
pub open spec fn bare(status: HttpStatusCode) -> RouteView {
    RouteView::Reply { status, content_type: None, body: seq![] }
}

/// The file that serves `path` under `root`: the two joined, with `index.html`
/// added when the result ends in `/`.
pub open spec fn file_path(root: Seq<char>, path: Seq<char>) -> Seq<char> {
    let j = root + path;
    if j.len() > 0 && j.last() == '/' {
        j + index_file()
    } else {
        j
    }
}

/// What follows `/echo/` in an echo path.
pub open spec fn echo_body(path: Seq<char>) -> Seq<char> {
    if path.len() >= 6 {
        path.skip(6)
    } else {
        seq![]
    }
}

/// How a parsed request is answered. Only GET is served. `/user-agent` echoes
/// the client's `User-Agent` field, a path that starts with `/echo` echoes the
/// rest of the path after `/echo/`, and any other path names a file under `root`.
pub open spec fn route_spec(root: Seq<char>, q: RequestView) -> RouteView {
    if q.method != HttpMethod::GET {
        bare(HttpStatusCode::NotImplemented)
    } else if q.path == user_agent_path() {
        if q.headers.contains_key(user_agent_name()) {
            RouteView::Reply {
                status: HttpStatusCode::Success,
                content_type: Some(text_plain()),
                body: q.headers[user_agent_name()],
            }
        } else {
            bare(HttpStatusCode::InternalServerError)
        }
    } else if q.path.len() >= 5 && q.path.take(5) == echo_prefix() {
        RouteView::Reply {
            status: HttpStatusCode::Success,
            content_type: Some(text_plain()),
            body: echo_body(q.path),
        }
    } else {
        RouteView::ReadFile(file_path(root, q.path))
    }
}

/// `PATCH`
pub open spec fn patch_name() -> Seq<char> {
    seq!['P', 'A', 'T', 'C', 'H']
}

/// The first word of the first line of a request text.
pub open spec fn method_token(s: Seq<char>) -> Seq<char> {
    words_of(lines_of(s)[0])[0]
}

/// How a request text is answered. Text that is no request gets 406, with one
/// exception: a request line whose method is `PATCH`, a standard method that
/// the server does not implement, gets 501.
pub open spec fn answer_spec(root: Seq<char>, s: Seq<char>) -> RouteView {
    match parse_spec(s) {
        Ok(q) => route_spec(root, q),
        Err(ParseError::InvalidMethod) => if method_token(s) == patch_name() {
            bare(HttpStatusCode::NotImplemented)
        } else {
            bare(HttpStatusCode::NotAcceptable)
        },
        Err(_) => bare(HttpStatusCode::NotAcceptable),
    }
}

/// How the bytes read from a connection are answered; `None` stands for a
/// failed read. A failed read and bytes that are not UTF-8 get 500.
pub open spec fn input_spec(root: Seq<char>, input: Option<Seq<u8>>) -> RouteView {
    match input {
        Some(b) => if valid_utf8(b) {
            answer_spec(root, decode_utf8(b))
        } else {
            bare(HttpStatusCode::InternalServerError)
        },
        None => bare(HttpStatusCode::InternalServerError),
    }
}

/// Relies on `std::str::from_utf8`: it accepts exactly the well-formed UTF-8
/// sequences and then views the same bytes as text.
#[verifier::external_body]
fn utf8_text(b: &[u8]) -> (r: Option<&str>)
    ensures
        r.is_some() == valid_utf8(b@),
        r matches Some(s) ==> encode_utf8(s@) == b@,
{
    std::str::from_utf8(b).ok()
}

/// A response of HTTP/1.1 with `status` and `body`, and a `Content-Type` field
/// when `content_type` is given.
pub fn create_response(status: HttpStatusCode, content_type: Option<&str>, body: String) -> (r:
    HttpResponse)
    ensures
        is_reply(
            &r,
            status,
            match content_type {
                Some(t) => Some(t@),
                None => None,
            },
            body@,
        ),
{
    let mut response = HttpResponse::new();
    response.head.status = status;
    if let Some(t) = content_type {
        proof {
            reveal_strlit("Content-Type");
            assert("Content-Type"@ =~= content_type_name());
        }
        response.head.headers.insert(String::from_str("Content-Type"), String::from_str(t));
        assert(response.head.headers.pairs() =~= seq![(content_type_name(), t@)]);
    }
    response.body = body;
    response
}

/// The answer once the file of a request has been read: its content as HTML,
/// or 404 when it could not be read.
pub fn get_path_response(contents: Option<String>) -> (r: HttpResponse)
    ensures
        match contents {
            Some(c) => is_reply(&r, HttpStatusCode::Success, Some(text_html()), c@),
            None => is_reply(&r, HttpStatusCode::NotFound, None, seq![]),
        },
{
    match contents {
        Some(c) => {
            proof {
                reveal_strlit("text/html");
                assert("text/html"@ =~= text_html());
            }
            create_response(HttpStatusCode::Success, Some("text/html"), c)
        },
        None => create_response(HttpStatusCode::NotFound, None, String::new()),
    }
}

/// The file that serves `path` under `root`.
pub fn parse_path(root: &str, path: &str) -> (r: String)
    ensures
        r@ == file_path(root@, path@),
{
    let mut joined = String::from_str(root);
    joined.append(path);
    let v = chars_of(joined.as_str());
    let n = v.len();
    if n > 0 && v[n - 1] == '/' {
        proof {
            reveal_strlit("index.html");
            assert("index.html"@ =~= index_file());
        }
        joined.append("index.html");
    }
    joined
}

/// Decides how a parsed request is answered.
pub fn route(root: &str, request: &HttpRequest) -> (r: Route)
    ensures
        route_is(&r, route_spec(root@, request@)),
{
    if request.method != HttpMethod::GET {
        return Route::Reply(create_response(HttpStatusCode::NotImplemented, None, String::new()));
    }
    proof {
        reveal_strlit("/user-agent");
        reveal_strlit("/echo");
        reveal_strlit("user-agent");
        reveal_strlit("text/plain");
        assert("/user-agent"@ =~= user_agent_path());
        assert("/echo"@ =~= echo_prefix());
        assert("user-agent"@ =~= user_agent_name());
        assert("text/plain"@ =~= text_plain());
    }
    let path = request.path.as_str();
    let v = chars_of(path);
    let n = v.len();
    assert(v@.subrange(0, n as int) =~= path@);
    if text_eq(&v, 0, n, "/user-agent") {
        let key = String::from_str("user-agent");
        match request.headers.get(&key) {
            Some(agent) => Route::Reply(
                create_response(HttpStatusCode::Success, Some("text/plain"), agent.clone()),
            ),
            None => Route::Reply(
                create_response(HttpStatusCode::InternalServerError, None, String::new()),
            ),
        }
    } else if n >= 5 && text_eq(&v, 0, 5, "/echo") {
        assert(v@.subrange(0, 5) =~= path@.take(5));
        let body = if n >= 6 {
            path.substring_char(6, n).to_owned()
        } else {
            String::new()
        };
        assert(n >= 6 ==> path@.subrange(6, n as int) =~= path@.skip(6));
        Route::Reply(create_response(HttpStatusCode::Success, Some("text/plain"), body))
    } else {
        assert(n >= 5 ==> v@.subrange(0, 5) =~= path@.take(5));
        Route::ReadFile(parse_path(root, path))
    }
}

/// Reads a request text and decides how it is answered.
pub fn parse_request(root: &str, request: &str) -> (r: Route)
    ensures
        route_is(&r, answer_spec(root@, request@)),
{
    match HttpRequest::from_str(request) {
        Ok(q) => route(root, &q),
        Err(ParseError::InvalidMethod) => {
            if method_token_is_patch(request) {
                Route::Reply(create_response(HttpStatusCode::NotImplemented, None, String::new()))
            } else {
                Route::Reply(create_response(HttpStatusCode::NotAcceptable, None, String::new()))
            }
        },
        Err(_) => Route::Reply(create_response(HttpStatusCode::NotAcceptable, None, String::new())),
    }
}

/// Whether the method token of a request text is `PATCH`.
fn method_token_is_patch(s: &str) -> (r: bool)
    requires
        s@.len() > 0,
        words_of(lines_of(s@)[0]).len() > 0,
    ensures
        r == (method_token(s@) == patch_name()),
{
    let v = chars_of(s);
    let ls = split_lines(&v);
    let ws = split_words(&v, ls[0].0, ls[0].1);
    proof {
        reveal_strlit("PATCH");
        assert("PATCH"@ =~= patch_name());
    }
    text_eq(&v, ws[0].0, ws[0].1, "PATCH")
}

/// Decides how the bytes read from a connection are answered; `None` stands for
/// a read that failed.
pub fn handle_input(root: &str, input: Option<&[u8]>) -> (r: Route)
    ensures
        route_is(
            &r,
            input_spec(
                root@,
                match input {
                    Some(b) => Some(b@),
                    None => None,
                },
            ),
        ),
{
    match input {
        Some(b) => match utf8_text(b) {
            Some(text) => {
                proof {
                    encode_utf8_decode_utf8(text@);
                }
                parse_request(root, text)
            },
            None => Route::Reply(
                create_response(HttpStatusCode::InternalServerError, None, String::new()),
            ),
        },
        None => Route::Reply(
            create_response(HttpStatusCode::InternalServerError, None, String::new()),
        ),
    }
}

/// A request text that is empty, or whose first line holds fewer than three
/// words, is answered with 406 and no content.
pub proof fn lemma_malformed_not_acceptable(root: Seq<char>, s: Seq<char>)
    requires
        s.len() == 0 || words_of(lines_of(s)[0]).len() < 3,
    ensures
        answer_spec(root, s) == bare(HttpStatusCode::NotAcceptable),
{
}

/// A request line of three words whose method is `PATCH` is answered with 501
/// and no content, whatever its path and whatever follows it.
pub proof fn lemma_patch_not_implemented(root: Seq<char>, s: Seq<char>)
    requires
        s.len() > 0,
        words_of(lines_of(s)[0]).len() == 3,
        method_token(s) == patch_name(),
    ensures
        answer_spec(root, s) == bare(HttpStatusCode::NotImplemented),
{
}

/// A request line of three words whose method is neither a known one nor
/// `PATCH` is answered with 406 and no content.
pub proof fn lemma_unknown_method_not_acceptable(root: Seq<char>, s: Seq<char>)
    requires
        s.len() > 0,
        words_of(lines_of(s)[0]).len() == 3,
        crate::method::method_from_name(method_token(s)) is None,
        method_token(s) != patch_name(),
    ensures
        answer_spec(root, s) == bare(HttpStatusCode::NotAcceptable),
{
}

/// A GET of `/echo/<rest>` is answered with 200, `<rest>` as plain text.
pub proof fn lemma_echo(root: Seq<char>, q: RequestView, rest: Seq<char>)
    requires
        q.method == HttpMethod::GET,
        q.path == echo_prefix() + seq!['/'] + rest,
    ensures
        route_spec(root, q) == (RouteView::Reply {
            status: HttpStatusCode::Success,
            content_type: Some(text_plain()),
            body: rest,
        }),
{
    assert(q.path[1] != user_agent_path()[1]);
    assert(q.path.take(5) =~= echo_prefix());
    assert(q.path.skip(6) =~= rest);
}

/// A GET of `/` asks for `index.html` at the top of `root`.
pub proof fn lemma_root_is_index(root: Seq<char>, q: RequestView)
    requires
        q.method == HttpMethod::GET,
        q.path == seq!['/'],
    ensures
        route_spec(root, q) == RouteView::ReadFile(root + seq!['/'] + index_file()),
{
    assert(q.path.len() != user_agent_path().len());
    assert((root + q.path).last() == '/');
}

} // verus!
