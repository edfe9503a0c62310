use vstd::prelude::*;

use crate::method::{spec_method_of, Method};
use crate::query_string::{spec_query_map, QueryString};
use crate::text::{find_char, first_at, lemma_first_at, str_eq};
use vstd::utf8::{decode_utf8, valid_utf8};

verus! {

/// Why a buffer failed to parse as a request.
#[derive(Copy, Clone, Debug, PartialEq, Eq, Structural)]
pub enum ParseError {
    InvalidRequest,
    InvalidEncoding,
    InvalidProtocol,
    InvalidMethod,
}

impl ParseError {
    /// The fixed message of each error.
    pub open spec fn spec_message(self) -> Seq<char> {
        match self {
            ParseError::InvalidRequest => "Invalid Request"@,
            ParseError::InvalidEncoding => "Invalid Encoding"@,
            ParseError::InvalidProtocol => "Invalid Protocol"@,
            ParseError::InvalidMethod => "Invalid Method"@,
        }
    }

    /// The fixed message of each error.
    pub fn message(&self) -> (r: &'static str)
        ensures
            r@ == self.spec_message(),
    {
        match self {
            ParseError::InvalidRequest => "Invalid Request",
            ParseError::InvalidEncoding => "Invalid Encoding",
            ParseError::InvalidProtocol => "Invalid Protocol",
            ParseError::InvalidMethod => "Invalid Method",
        }
    }
}

/// Whether a character ends a token of the request line: a space or a
/// carriage return.
pub open spec fn is_delim(c: char) -> bool {
    c == ' ' || c == '\r'
}

/// The first position at or after `from` where `s` holds a token delimiter.
pub open spec fn first_delim(s: Seq<char>, from: int) -> Option<int>
    decreases s.len() - from,
    when 0 <= from <= s.len()
{
    if from >= s.len() {
        None
    } else if is_delim(s[from]) {
        Some(from)
    } else {
        first_delim(s, from + 1)
    }
}

/// `first_delim` points at the first delimiter at or after `from`, and
/// reports `None` exactly when no delimiter follows.
pub proof fn lemma_first_delim(s: Seq<char>, from: int)
    requires
        0 <= from <= s.len(),
    ensures
        (match first_delim(s, from) {
            Some(i) => from <= i < s.len() && is_delim(s[i]) && (forall|j: int|
                from <= j < i ==> !is_delim(s[j])),
            None => forall|j: int| from <= j < s.len() ==> !is_delim(s[j]),
        }),
    decreases s.len() - from,
{
    if from < s.len() && !is_delim(s[from]) {
        lemma_first_delim(s, from + 1);
    }
}

/// The next token of the request line and the remainder past its delimiter,
/// or `None` when no delimiter follows.
pub open spec fn spec_next_word(s: Seq<char>) -> Option<(Seq<char>, Seq<char>)> {
    match first_delim(s, 0) {
        Some(i) => Some((s.subrange(0, i), s.subrange(i + 1, s.len() as int))),
        None => None,
    }
}

/// Cuts the text before the first space or carriage return out of `s`, and
/// hands back the remainder past that delimiter for the next extraction.
/// Input that holds no delimiter yields nothing: an unterminated request
/// line is never accepted.
pub fn get_next_word<'a>(s: &'a str) -> (r: Option<(&'a str, &'a str)>)
    ensures
        (match r {
            Some(p) => spec_next_word(s@) == Some((p.0@, p.1@)),
            None => spec_next_word(s@) is None,
        }),
{
    let n = s.unicode_len();
    let mut i: usize = 0;
    while i < n
        invariant
            0 <= i <= n,
            n == s@.len(),
            forall|j: int| 0 <= j < i ==> !is_delim(s@[j]),
        decreases n - i,
    {
        let c = s.get_char(i);
        if c == ' ' || c == '\r' {
            proof {
                lemma_first_delim(s@, 0);
            }
            return Some((s.substring_char(0, i), s.substring_char(i + 1, n)));
        }
        i = i + 1;
    }
    proof {
        lemma_first_delim(s@, 0);
    }
    None
}

/// What parsing a decoded request line yields: the method, the path with
/// the query cut away, and the raw query substring when the path held a
/// `?` — or the error, with tokenization failure reported before a protocol
/// mismatch, and that before an unknown method.
pub open spec fn spec_parse_chars(s: Seq<char>) -> Result<
    (Method, Seq<char>, Option<Seq<char>>),
    ParseError,
> {
    match spec_next_word(s) {
        None => Err(ParseError::InvalidRequest),
        Some(w1) => match spec_next_word(w1.1) {
            None => Err(ParseError::InvalidRequest),
            Some(w2) => match spec_next_word(w2.1) {
                None => Err(ParseError::InvalidRequest),
                Some(w3) => if w3.0 != "HTTP/1.1"@ {
                    Err(ParseError::InvalidProtocol)
                } else {
                    match spec_method_of(w1.0) {
                        None => Err(ParseError::InvalidMethod),
                        Some(m) => {
                            let p = w2.0;
                            match first_at(p, '?', 0) {
                                Some(i) => Ok(
                                    (m, p.subrange(0, i), Some(p.subrange(i + 1, p.len() as int))),
                                ),
                                None => Ok((m, p, None)),
                            }
                        },
                    }
                },
            },
        },
    }
}

/// What parsing a raw buffer yields: `InvalidEncoding` for bytes that are
/// not valid text, before any tokenization; otherwise the parse of the
/// decoded characters.
pub open spec fn spec_parse(bytes: Seq<u8>) -> Result<
    (Method, Seq<char>, Option<Seq<char>>),
    ParseError,
> {
    if !valid_utf8(bytes) {
        Err(ParseError::InvalidEncoding)
    } else {
        spec_parse_chars(decode_utf8(bytes))
    }
}

/// Relies on core::str::from_utf8: it returns `Ok` exactly when the bytes
/// are valid UTF-8, and the returned slice then views as their decoding.
#[verifier::external_body]
fn decode_utf8_str(buf: &[u8]) -> (r: Option<&str>)
    ensures
        r is Some <==> valid_utf8(buf@),
        r matches Some(s) ==> s@ == decode_utf8(buf@),
{
    core::str::from_utf8(buf).ok()
}

/// A parsed request: borrowed views over the buffer it was parsed from,
/// which it must not outlive.
#[derive(Debug)]
pub struct Request<'buf> {
    path: &'buf str,
    method: Method,
    query_string: Option<QueryString<'buf>>,
}

impl<'buf> Request<'buf> {
    /// The request path, with any query portion stripped.
    pub closed spec fn spec_path(&self) -> Seq<char> {
        self.path@
    }

    /// The request method.
    pub closed spec fn spec_method(&self) -> Method {
        self.method
    }

    /// The query mapping, present exactly when the path token held a `?`.
    pub closed spec fn spec_query(&self) -> Option<Map<Seq<char>, Seq<Seq<char>>>> {
        match self.query_string {
            Some(q) => Some(q@),
            None => None,
        }
    }

    /// The query string, if present, is well formed.
    pub closed spec fn wf(&self) -> bool {
        self.query_string matches Some(q) ==> q.wf()
    }

    pub fn path(&self) -> (r: &str)
        ensures
            r@ == self.spec_path(),
    {
        self.path
    }

    pub fn method(&self) -> (r: &Method)
        ensures
            *r == self.spec_method(),
    {
        &self.method
    }

    pub fn query_string<'a>(&'a self) -> (r: Option<&'a QueryString<'buf>>)
        requires
            self.wf(),
        ensures
            (match r {
                Some(q) => self.spec_query() == Some(q@) && q.wf(),
                None => self.spec_query() is None,
            }),
    {
        self.query_string.as_ref()
    }

    /// Parses a raw buffer into a request, or reports why it cannot be one.
    /// The outcome is exactly `spec_parse` of the buffer: the path never
    /// holds a `?`, the method is one of the closed set, and the query
    /// mapping is the parse of the text after the path's first `?`.
    pub fn try_from(buf: &'buf [u8]) -> (r: Result<Request<'buf>, ParseError>)
        ensures
            (match r {
                Ok(req) => {
                    &&& req.wf()
                    &&& spec_parse(buf@) matches Ok(t)
                    &&& req.spec_method() == t.0
                    &&& req.spec_path() == t.1
                    &&& (match t.2 {
                        Some(q) => req.spec_query() == Some(spec_query_map(q)),
                        None => req.spec_query() is None,
                    })
                },
                Err(e) => spec_parse(buf@) == Err::<(Method, Seq<char>, Option<Seq<char>>),
                    ParseError,
                >(e),
            }),
    {
        let request = match decode_utf8_str(buf) {
            Some(s) => s,
            None => {
                return Err(ParseError::InvalidEncoding);
            },
        };
        let (method_tok, request) = match get_next_word(request) {
            Some(p) => p,
            None => {
                return Err(ParseError::InvalidRequest);
            },
        };
        let (path_tok, request) = match get_next_word(request) {
            Some(p) => p,
            None => {
                return Err(ParseError::InvalidRequest);
            },
        };
        let (protocol, _request) = match get_next_word(request) {
            Some(p) => p,
            None => {
                return Err(ParseError::InvalidRequest);
            },
        };
        if !str_eq(protocol, "HTTP/1.1") {
            return Err(ParseError::InvalidProtocol);
        }
        let method = match Method::from_str(method_tok) {
            Some(m) => m,
            None => {
                return Err(ParseError::InvalidMethod);
            },
        };
        let mut path = path_tok;
        let mut query_string: Option<QueryString<'buf>> = None;
        if let Some(i) = find_char(path_tok, '?') {
            proof {
                lemma_first_at(path_tok@, '?', 0);
            }
            let n = path_tok.unicode_len();
            query_string = Some(QueryString::from(path_tok.substring_char(i + 1, n)));
            path = path_tok.substring_char(0, i);
        }
        Ok(Request { path, method, query_string })
    }
}

} // verus!
