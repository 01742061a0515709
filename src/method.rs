use vstd::prelude::*;

use crate::text::text_eq;

verus! {

/// The request methods that the server recognises.
#[derive(Clone, Copy, Debug, PartialEq, Eq, Structural)]
pub enum HttpMethod {
    GET,
    POST,
    PUT,
    DELETE,
    HEAD,
    OPTIONS,
    TRACE,
    CONNECT,
}

/// The token that names a method on the wire.
pub open spec fn method_name(m: HttpMethod) -> Seq<char> {
    match m {
        HttpMethod::GET => seq!['G', 'E', 'T'],
        HttpMethod::POST => seq!['P', 'O', 'S', 'T'],
        HttpMethod::PUT => seq!['P', 'U', 'T'],
        HttpMethod::DELETE => seq!['D', 'E', 'L', 'E', 'T', 'E'],
        HttpMethod::HEAD => seq!['H', 'E', 'A', 'D'],
        HttpMethod::OPTIONS => seq!['O', 'P', 'T', 'I', 'O', 'N', 'S'],
        HttpMethod::TRACE => seq!['T', 'R', 'A', 'C', 'E'],
        HttpMethod::CONNECT => seq!['C', 'O', 'N', 'N', 'E', 'C', 'T'],
    }
}

/// The method whose token is exactly `s`, if there is one (case matters).
pub open spec fn method_from_name(s: Seq<char>) -> Option<HttpMethod> {
    if s == method_name(HttpMethod::GET) {
        Some(HttpMethod::GET)
    } else if s == method_name(HttpMethod::POST) {
        Some(HttpMethod::POST)
    } else if s == method_name(HttpMethod::PUT) {
        Some(HttpMethod::PUT)
    } else if s == method_name(HttpMethod::DELETE) {
        Some(HttpMethod::DELETE)
    } else if s == method_name(HttpMethod::HEAD) {
        Some(HttpMethod::HEAD)
    } else if s == method_name(HttpMethod::OPTIONS) {
        Some(HttpMethod::OPTIONS)
    } else if s == method_name(HttpMethod::TRACE) {
        Some(HttpMethod::TRACE)
    } else if s == method_name(HttpMethod::CONNECT) {
        Some(HttpMethod::CONNECT)
    } else {
        None
    }
}

/// The method whose token the characters between `from` and `to` spell.
pub fn method_at(v: &Vec<char>, from: usize, to: usize) -> (r: Option<HttpMethod>)
    requires
        from <= to <= v.len(),
    ensures
        r == method_from_name(v@.subrange(from as int, to as int)),
{
    proof {
        reveal_strlit("GET");
        reveal_strlit("POST");
        reveal_strlit("PUT");
        reveal_strlit("DELETE");
        reveal_strlit("HEAD");
        reveal_strlit("OPTIONS");
        reveal_strlit("TRACE");
        reveal_strlit("CONNECT");
        assert("GET"@ =~= method_name(HttpMethod::GET));
        assert("POST"@ =~= method_name(HttpMethod::POST));
        assert("PUT"@ =~= method_name(HttpMethod::PUT));
        assert("DELETE"@ =~= method_name(HttpMethod::DELETE));
        assert("HEAD"@ =~= method_name(HttpMethod::HEAD));
        assert("OPTIONS"@ =~= method_name(HttpMethod::OPTIONS));
        assert("TRACE"@ =~= method_name(HttpMethod::TRACE));
        assert("CONNECT"@ =~= method_name(HttpMethod::CONNECT));
    }
    if text_eq(v, from, to, "GET") {
        Some(HttpMethod::GET)
    } else if text_eq(v, from, to, "POST") {
        Some(HttpMethod::POST)
    } else if text_eq(v, from, to, "PUT") {
        Some(HttpMethod::PUT)
    } else if text_eq(v, from, to, "DELETE") {
        Some(HttpMethod::DELETE)
    } else if text_eq(v, from, to, "HEAD") {
        Some(HttpMethod::HEAD)
    } else if text_eq(v, from, to, "OPTIONS") {
        Some(HttpMethod::OPTIONS)
    } else if text_eq(v, from, to, "TRACE") {
        Some(HttpMethod::TRACE)
    } else if text_eq(v, from, to, "CONNECT") {
        Some(HttpMethod::CONNECT)
    } else {
        None
    }
}

impl HttpMethod {
    /// The method named by the token `s`; `None` for any other text.
    pub fn from_str(s: &str) -> (r: Option<HttpMethod>)
        ensures
            r == method_from_name(s@),
    {
        let v = crate::text::chars_of(s);
        assert(v@.subrange(0, v@.len() as int) =~= s@);
        method_at(&v, 0, v.len())
    }

    /// The token that names this method on the wire.
    pub fn as_str(&self) -> (r: &'static str)
        ensures
            r@ == method_name(*self),
    {
        match self {
            HttpMethod::GET => {
                proof {
                    reveal_strlit("GET");
                }
                "GET"
            },
            HttpMethod::POST => {
                proof {
                    reveal_strlit("POST");
                }
                "POST"
            },
            HttpMethod::PUT => {
                proof {
                    reveal_strlit("PUT");
                }
                "PUT"
            },
            HttpMethod::DELETE => {
                proof {
                    reveal_strlit("DELETE");
                }
                "DELETE"
            },
            HttpMethod::HEAD => {
                proof {
                    reveal_strlit("HEAD");
                }
                "HEAD"
            },
            HttpMethod::OPTIONS => {
                proof {
                    reveal_strlit("OPTIONS");
                }
                "OPTIONS"
            },
            HttpMethod::TRACE => {
                proof {
                    reveal_strlit("TRACE");
                }
                "TRACE"
            },
            HttpMethod::CONNECT => {
                proof {
                    reveal_strlit("CONNECT");
                }
                "CONNECT"
            },
        }
    }
}

} // verus!
