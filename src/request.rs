use vstd::prelude::*;

use crate::headers::{map_of, Headers};
use crate::method::{method_at, method_from_name, HttpMethod};
use crate::text::{
    chars_of, find_char, index_of, lines_of, spans_cover, split_lines, split_words,
    trim, trim_span, words_of,
};

verus! {

/// Why a request text could not be read as a request.
#[derive(Clone, Copy, Debug, PartialEq, Eq, Structural)]
pub enum ParseError {
    /// The text is empty.
    Empty,
    /// The first line does not hold exactly three words.
    MalformedRequestLine,
    /// The first word of the first line is not a known method.
    InvalidMethod,
    /// A line of the header block holds no `:`.
    MalformedHeader,
}

/// A request as read from the wire.
pub struct HttpRequest {
    pub method: HttpMethod,
    pub path: String,
    pub version: String,
    /// Header values by lower-case name.
    pub headers: Headers,
    pub body: String,
}

/// What a request holds, as mathematical values.
pub struct RequestView {
    pub method: HttpMethod,
    pub path: Seq<char>,
    pub version: Seq<char>,
    pub headers: Map<Seq<char>, Seq<char>>,
    pub body: Seq<char>,
}

impl View for HttpRequest {
    type V = RequestView;

    open spec fn view(&self) -> RequestView {
        RequestView {
            method: self.method,
            path: self.path@,
            version: self.version@,
            headers: self.headers@,
            body: self.body@,
        }
    }
}

/// Lower-case form of a text, as `str::to_lowercase` gives it.
pub uninterp spec fn lower_of(s: Seq<char>) -> Seq<char>;

/// Relies on `str::to_lowercase`: its result depends on the characters of `s` alone.
#[verifier::external_body]
fn lowercase(s: &str) -> (r: String)
    ensures
        r@ == lower_of(s@),
{
    s.to_lowercase()
}

/// Whether a line holds a `:`.
pub open spec fn has_colon(l: Seq<char>) -> bool {
    index_of(l, ':') < l.len()
}

/// Name of a header line: what stands before the first `:`, trimmed and in lower case.
pub open spec fn header_name(l: Seq<char>) -> Seq<char> {
    lower_of(trim(l.take(index_of(l, ':') as int)))
}

/// Value of a header line: what follows the first `:`, trimmed.
pub open spec fn header_value(l: Seq<char>) -> Seq<char> {
    trim(l.skip(index_of(l, ':') as int + 1))
}

/// The (name, value) pairs of header lines, in order.
pub open spec fn header_pairs(ls: Seq<Seq<char>>) -> Seq<(Seq<char>, Seq<char>)> {
    ls.map_values(|l: Seq<char>| (header_name(l), header_value(l)))
}

/// Position of the first empty line, or `ls.len()` when there is none.
pub open spec fn blank_pos(ls: Seq<Seq<char>>) -> nat
    decreases ls.len(),
{
    if ls.len() == 0 || ls[0].len() == 0 {
        0
    } else {
        1 + blank_pos(ls.skip(1))
    }
}

/// The lines joined with nothing between them.
pub open spec fn concat(ls: Seq<Seq<char>>) -> Seq<char>
    decreases ls.len(),
{
    if ls.len() == 0 {
        seq![]
    } else {
        concat(ls.drop_last()) + ls.last()
    }
}

/// The header block: the lines before the first empty one.
pub open spec fn header_lines(ls: Seq<Seq<char>>) -> Seq<Seq<char>> {
    ls.take(blank_pos(ls) as int)
}

/// The lines after the first empty one; none when no line is empty.
pub open spec fn body_lines(ls: Seq<Seq<char>>) -> Seq<Seq<char>> {
    if blank_pos(ls) < ls.len() {
        ls.skip(blank_pos(ls) as int + 1)
    } else {
        seq![]
    }
}

/// The request that a text describes, or why it describes none.
///
/// The first line holds the method, the path and the version, split on white
/// space. The lines after it, up to the first empty line, are headers; later
/// lines form the body of a POST and are dropped for any other method.
pub open spec fn parse_spec(s: Seq<char>) -> Result<RequestView, ParseError> {
    if s.len() == 0 {
        Err(ParseError::Empty)
    } else {
        let ls = lines_of(s);
        let ws = words_of(ls[0]);
        if ws.len() != 3 {
            Err(ParseError::MalformedRequestLine)
        } else {
            match method_from_name(ws[0]) {
                None => Err(ParseError::InvalidMethod),
                Some(m) => {
                    let hs = header_lines(ls.skip(1));
                    if exists|i: int| 0 <= i < hs.len() && !has_colon(#[trigger] hs[i]) {
                        Err(ParseError::MalformedHeader)
                    } else {
                        Ok(
                            RequestView {
                                method: m,
                                path: ws[1],
                                version: ws[2],
                                headers: map_of(header_pairs(hs)),
                                body: if m == HttpMethod::POST {
                                    concat(body_lines(ls.skip(1)))
                                } else {
                                    seq![]
                                },
                            },
                        )
                    }
                },
            }
        }
    }
}

proof fn lemma_blank_pos(ls: Seq<Seq<char>>, k: int)
    requires
        0 <= k <= ls.len(),
        forall|j: int| 0 <= j < k ==> ls[j].len() > 0,
        k < ls.len() ==> ls[k].len() == 0,
    ensures
        blank_pos(ls) == k,
    decreases k,
{
    if k > 0 {
        lemma_blank_pos(ls.skip(1), k - 1);
    }
}

proof fn lemma_blank_pos_at_least(ls: Seq<Seq<char>>, k: int)
    requires
        0 <= k <= ls.len(),
        forall|j: int| 0 <= j < k ==> ls[j].len() > 0,
    ensures
        k <= blank_pos(ls) <= ls.len(),
    decreases ls.len(),
{
    if ls.len() > 0 && ls[0].len() > 0 {
        if k > 0 {
            lemma_blank_pos_at_least(ls.skip(1), k - 1);
        } else {
            lemma_blank_pos_at_least(ls.skip(1), 0);
        }
    }
}

proof fn lemma_lines_nonempty(s: Seq<char>)
    requires
        s.len() > 0,
    ensures
        lines_of(s).len() > 0,
{
}

/// Reads the header block that follows the first line.
fn read_headers(s: &str, v: &Vec<char>, ls: &Vec<(usize, usize)>) -> (r: Result<
    (Headers, usize),
    ParseError,
>)
    requires
        v@ == s@,
        spans_cover(v@, ls@, lines_of(s@)),
        ls.len() >= 1,
    ensures
        ({
            let hs = header_lines(lines_of(s@).skip(1));
            match r {
                Ok((h, i)) => {
                    &&& i == blank_pos(lines_of(s@).skip(1)) + 1
                    &&& forall|j: int| 0 <= j < hs.len() ==> has_colon(#[trigger] hs[j])
                    &&& h@ == map_of(header_pairs(hs))
                },
                Err(e) => {
                    &&& e == ParseError::MalformedHeader
                    &&& exists|j: int| 0 <= j < hs.len() && !has_colon(#[trigger] hs[j])
                },
            }
        }),
{
    let ghost lines = lines_of(s@);
    let ghost rest = lines.skip(1);
    let mut headers = Headers::new();
    let mut i: usize = 1;
    assert(rest.take(0) =~= Seq::<Seq<char>>::empty());
    assert(header_pairs(rest.take(0)) =~= Seq::<(Seq<char>, Seq<char>)>::empty());
    while i < ls.len() && ls[i].0 < ls[i].1
        invariant
            v@ == s@,
            spans_cover(v@, ls@, lines),
            lines == lines_of(s@),
            rest == lines.skip(1),
            1 <= i <= ls.len(),
            forall|j: int| 0 <= j < i - 1 ==> rest[j].len() > 0 && has_colon(#[trigger] rest[j]),
            headers@ == map_of(header_pairs(rest.take(i - 1))),
        decreases ls.len() - i,
    {
        let (a, b) = ls[i];
        let ghost l = lines[i as int];
        assert(l == rest[i - 1]);
        let c = find_char(v, a, b, ':');
        if c == b {
            proof {
                lemma_blank_pos_at_least(rest, i as int);
                let hs = header_lines(rest);
                assert(hs[i - 1] == l);
                assert(!has_colon(hs[i - 1]));
            }
            return Err(ParseError::MalformedHeader);
        }
        let (na, nb) = trim_span(v, a, c);
        let (va, vb) = trim_span(v, c + 1, b);
        let name = lowercase(s.substring_char(na, nb));
        let value = s.substring_char(va, vb).to_owned();
        proof {
            assert(l.take(c - a) =~= v@.subrange(a as int, c as int));
            assert(l.skip(c - a + 1) =~= v@.subrange(c + 1, b as int));
            assert(rest.take(i as int) =~= rest.take(i - 1).push(l));
            assert(header_pairs(rest.take(i as int)) =~= header_pairs(rest.take(i - 1)).push(
                (header_name(l), header_value(l)),
            ));
            assert(header_pairs(rest.take(i as int)).drop_last() =~= header_pairs(
                rest.take(i - 1),
            ));
        }
        headers.insert(name, value);
        i = i + 1;
    }
    proof {
        lemma_blank_pos(rest, i - 1);
        let hs = header_lines(rest);
        assert(hs =~= rest.take(i - 1));
        assert forall|j: int| 0 <= j < hs.len() implies has_colon(#[trigger] hs[j]) by {
            assert(hs[j] == rest[j]);
        }
    }
    Ok((headers, i))
}

/// Joins the lines from position `from` on.
fn read_body(s: &str, v: &Vec<char>, ls: &Vec<(usize, usize)>, from: usize) -> (r: String)
    requires
        v@ == s@,
        spans_cover(v@, ls@, lines_of(s@)),
        from <= ls.len(),
    ensures
        r@ == concat(lines_of(s@).skip(from as int)),
{
    let ghost lines = lines_of(s@);
    let mut body = String::new();
    let mut j: usize = from;
    assert(lines.skip(from as int).take(0) =~= Seq::<Seq<char>>::empty());
    while j < ls.len()
        invariant
            v@ == s@,
            spans_cover(v@, ls@, lines),
            lines == lines_of(s@),
            from <= j <= ls.len(),
            body@ == concat(lines.skip(from as int).take(j - from)),
        decreases ls.len() - j,
    {
        let part = s.substring_char(ls[j].0, ls[j].1);
        proof {
            let done = lines.skip(from as int).take(j - from);
            assert(lines.skip(from as int).take(j - from + 1) =~= done.push(lines[j as int]));
            assert(done.push(lines[j as int]).drop_last() =~= done);
        }
        body.append(part);
        j = j + 1;
    }
    assert(lines.skip(from as int).take(j - from) =~= lines.skip(from as int));
    body
}

impl HttpRequest {
    /// Reads a request from its text.
    pub fn from_str(s: &str) -> (r: Result<HttpRequest, ParseError>)
        ensures
            match r {
                Ok(q) => parse_spec(s@) == Ok::<RequestView, ParseError>(q@),
                Err(e) => parse_spec(s@) == Err::<RequestView, ParseError>(e),
            },
    {
        if s.is_empty() {
            return Err(ParseError::Empty);
        }
        let v = chars_of(s);
        let ls = split_lines(&v);
        let ghost lines = lines_of(s@);
        proof {
            lemma_lines_nonempty(s@);
        }
        let (a0, b0) = ls[0];
        let ws = split_words(&v, a0, b0);
        if ws.len() != 3 {
            return Err(ParseError::MalformedRequestLine);
        }
        let method = match method_at(&v, ws[0].0, ws[0].1) {
            Some(m) => m,
            None => {
                return Err(ParseError::InvalidMethod);
            },
        };
        let path = s.substring_char(ws[1].0, ws[1].1).to_owned();
        let version = s.substring_char(ws[2].0, ws[2].1).to_owned();
        let (headers, i) = match read_headers(s, &v, &ls) {
            Ok(p) => p,
            Err(e) => {
                return Err(e);
            },
        };
        let ghost rest = lines.skip(1);
        let body = if method == HttpMethod::POST && i < ls.len() {
            assert(lines.skip(i as int + 1) =~= rest.skip(blank_pos(rest) as int + 1));
            read_body(s, &v, &ls, i + 1)
        } else {
            String::new()
        };
        assert(method == HttpMethod::POST && i >= ls.len() ==> body_lines(rest) =~= Seq::<
            Seq<char>,
        >::empty());
        Ok(HttpRequest { method, path, version, headers, body })
    }
}

} // verus!
