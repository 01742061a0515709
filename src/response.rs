use vstd::prelude::*;

use crate::headers::Headers;

verus! {

/// Protocol versions that a response can name.
#[derive(Clone, Copy, Debug, PartialEq, Eq, Structural)]
pub enum HttpVersion {
    Http09,
    Http10,
    Http11,
    H2,
    H3,
}

/// How a version is written on the status line.
pub open spec fn version_text(v: HttpVersion) -> Seq<char> {
    match v {
        HttpVersion::Http09 => seq!['H', 'T', 'T', 'P', '/', '0', '.', '9'],
        HttpVersion::Http10 => seq!['H', 'T', 'T', 'P', '/', '1', '.', '0'],
        HttpVersion::Http11 => seq!['H', 'T', 'T', 'P', '/', '1', '.', '1'],
        HttpVersion::H2 => seq!['H', 'T', 'T', 'P', '/', '2', '.', '0'],
        HttpVersion::H3 => seq!['H', 'T', 'T', 'P', '/', '3', '.', '0'],
    }
}

impl HttpVersion {
    /// How this version is written on the status line.
    pub fn as_str(&self) -> (r: &'static str)
        ensures
            r@ == version_text(*self),
    {
        proof {
            reveal_strlit("HTTP/0.9");
            reveal_strlit("HTTP/1.0");
            reveal_strlit("HTTP/1.1");
            reveal_strlit("HTTP/2.0");
            reveal_strlit("HTTP/3.0");
        }
        match self {
            HttpVersion::Http09 => "HTTP/0.9",
            HttpVersion::Http10 => "HTTP/1.0",
            HttpVersion::Http11 => "HTTP/1.1",
            HttpVersion::H2 => "HTTP/2.0",
            HttpVersion::H3 => "HTTP/3.0",
        }
    }
}

/// The statuses that the server answers with.
#[derive(Clone, Copy, Debug, PartialEq, Eq, Structural)]
pub enum HttpStatusCode {
    Success,
    NotFound,
    NotAcceptable,
    InternalServerError,
    NotImplemented,
}

/// The numeric code of a status.
pub open spec fn status_code(s: HttpStatusCode) -> u16 {
    match s {
        HttpStatusCode::Success => 200,
        HttpStatusCode::NotFound => 404,
        HttpStatusCode::NotAcceptable => 406,
        HttpStatusCode::InternalServerError => 500,
        HttpStatusCode::NotImplemented => 501,
    }
}

/// The decimal digits of a status's code.
pub open spec fn code_text(s: HttpStatusCode) -> Seq<char> {
    match s {
        HttpStatusCode::Success => seq!['2', '0', '0'],
        HttpStatusCode::NotFound => seq!['4', '0', '4'],
        HttpStatusCode::NotAcceptable => seq!['4', '0', '6'],
        HttpStatusCode::InternalServerError => seq!['5', '0', '0'],
        HttpStatusCode::NotImplemented => seq!['5', '0', '1'],
    }
}

/// The reason phrase of a status.
pub open spec fn reason_text(s: HttpStatusCode) -> Seq<char> {
    match s {
        HttpStatusCode::Success => seq!['O', 'K'],
        HttpStatusCode::NotFound => seq!['N', 'o', 't', ' ', 'F', 'o', 'u', 'n', 'd'],
        HttpStatusCode::NotAcceptable => seq![
            'N', 'o', 't', ' ', 'A', 'c', 'c', 'e', 'p', 't', 'a', 'b', 'l', 'e',
        ],
        HttpStatusCode::InternalServerError => seq![
            'I', 'n', 't', 'e', 'r', 'n', 'a', 'l', ' ', 'S', 'e', 'r', 'v', 'e', 'r', ' ',
            'E', 'r', 'r', 'o', 'r',
        ],
        HttpStatusCode::NotImplemented => seq![
            'N', 'o', 't', ' ', 'I', 'm', 'p', 'l', 'e', 'm', 'e', 'n', 't', 'e', 'd',
        ],
    }
}

impl HttpStatusCode {
    /// The numeric code.
    pub fn code(&self) -> (r: u16)
        ensures
            r == status_code(*self),
    {
        match self {
            HttpStatusCode::Success => 200,
            HttpStatusCode::NotFound => 404,
            HttpStatusCode::NotAcceptable => 406,
            HttpStatusCode::InternalServerError => 500,
            HttpStatusCode::NotImplemented => 501,
        }
    }

    /// The numeric code, written in decimal.
    pub fn code_str(&self) -> (r: &'static str)
        ensures
            r@ == code_text(*self),
    {
        proof {
            reveal_strlit("200");
            reveal_strlit("404");
            reveal_strlit("406");
            reveal_strlit("500");
            reveal_strlit("501");
        }
        match self {
            HttpStatusCode::Success => "200",
            HttpStatusCode::NotFound => "404",
            HttpStatusCode::NotAcceptable => "406",
            HttpStatusCode::InternalServerError => "500",
            HttpStatusCode::NotImplemented => "501",
        }
    }

    /// The reason phrase.
    pub fn reason(&self) -> (r: &'static str)
        ensures
            r@ == reason_text(*self),
    {
        proof {
            reveal_strlit("OK");
            reveal_strlit("Not Found");
            reveal_strlit("Not Acceptable");
            reveal_strlit("Internal Server Error");
            reveal_strlit("Not Implemented");
        }
        match self {
            HttpStatusCode::Success => "OK",
            HttpStatusCode::NotFound => "Not Found",
            HttpStatusCode::NotAcceptable => "Not Acceptable",
            HttpStatusCode::InternalServerError => "Internal Server Error",
            HttpStatusCode::NotImplemented => "Not Implemented",
        }
    }
}

/// Status line and header fields of a response.
pub struct Parts {
    pub status: HttpStatusCode,
    pub version: HttpVersion,
    pub headers: Headers,
}

impl Parts {
    /// `200 OK` under HTTP/1.1, with no header fields.
    pub fn new() -> (r: Parts)
        ensures
            r.status == HttpStatusCode::Success,
            r.version == HttpVersion::Http11,
            r.headers.pairs() == Seq::<(Seq<char>, Seq<char>)>::empty(),
            r.headers@ == Map::<Seq<char>, Seq<char>>::empty(),
    {
        Parts { status: HttpStatusCode::Success, version: HttpVersion::Http11, headers: Headers::new() }
    }
}

/// A response: its head and its body.
pub struct HttpResponse {
    pub head: Parts,
    pub body: String,
}

impl HttpResponse {
    /// `200 OK` under HTTP/1.1, with no header fields and an empty body.
    pub fn new() -> (r: HttpResponse)
        ensures
            r.head.status == HttpStatusCode::Success,
            r.head.version == HttpVersion::Http11,
            r.head.headers.pairs() == Seq::<(Seq<char>, Seq<char>)>::empty(),
            r.head.headers@ == Map::<Seq<char>, Seq<char>>::empty(),
            r.body@ == Seq::<char>::empty(),
    {
        HttpResponse { head: Parts::new(), body: String::new() }
    }
}

/// Line ending on the wire.
pub open spec fn crlf() -> Seq<char> {
    seq!['\r', '\n']
}

/// `<version> <code> <reason>` and a line ending.
pub open spec fn status_line(v: HttpVersion, s: HttpStatusCode) -> Seq<char> {
    version_text(v) + seq![' '] + code_text(s) + seq![' '] + reason_text(s) + crlf()
}

/// One `<name>: <value>` line per field, in order.
pub open spec fn header_text(ps: Seq<(Seq<char>, Seq<char>)>) -> Seq<char>
    decreases ps.len(),
{
    if ps.len() == 0 {
        seq![]
    } else {
        header_text(ps.drop_last()) + ps.last().0 + seq![':', ' '] + ps.last().1 + crlf()
    }
}

/// The text of a response on the wire: status line, header lines, an empty
/// line, then the body.
pub open spec fn wire_text(r: &HttpResponse) -> Seq<char> {
    status_line(r.head.version, r.head.status) + header_text(r.head.headers.pairs()) + crlf()
        + r.body@
}

/// Writes a response as it goes on the wire.
pub fn serialize_response(response: &HttpResponse) -> (r: String)
    ensures
        r@ == wire_text(response),
{
    proof {
        reveal_strlit(" ");
        reveal_strlit("\r\n");
        reveal_strlit(": ");
    }
    let mut out = String::new();
    out.append(response.head.version.as_str());
    out.append(" ");
    out.append(response.head.status.code_str());
    out.append(" ");
    out.append(response.head.status.reason());
    out.append("\r\n");
    let ghost start = out@;
    assert(start =~= status_line(response.head.version, response.head.status));
    let headers = &response.head.headers;
    let n = headers.len();
    let mut i: usize = 0;
    while i < n
        invariant
            n == headers.pairs().len(),
            i <= n,
            out@ == start + header_text(headers.pairs().take(i as int)),
        decreases n - i,
    {
        let ghost before = out@;
        out.append(headers.name_at(i).as_str());
        out.append(": ");
        out.append(headers.value_at(i).as_str());
        out.append("\r\n");
        proof {
            let ps = headers.pairs();
            assert(ps.take(i + 1).drop_last() =~= ps.take(i as int));
            assert(ps.take(i + 1).last() == ps[i as int]);
            reveal_strlit(": ");
            reveal_strlit("\r\n");
            assert(": "@ =~= seq![':', ' ']);
            assert("\r\n"@ =~= crlf());
            assert(header_text(ps.take(i + 1)) == header_text(ps.take(i as int)) + ps[i as int].0
                + seq![':', ' '] + ps[i as int].1 + crlf());
            assert(out@ =~= start + header_text(ps.take(i + 1)));
        }
        i = i + 1;
    }
    assert(headers.pairs().take(n as int) =~= headers.pairs());
    out.append("\r\n");
    out.append(response.body.as_str());
    assert(out@ =~= wire_text(response));
    out
}

} // verus!
