//! `pit call`: the HTTP request sent to PitLane for a logical service URI.
//! Reading the environment, sending the request and printing the reply are
//! the caller's.

use vstd::prelude::*;
use vstd::string::StringExecFns;

use crate::manifest::{copy_opt_text, copy_text, opt_view};
use crate::paths::{endpoint_url, endpoint_url_spec};
use crate::text::{chars_of, string_of, trim, trim_chars};

verus! {

#[derive(Debug)]
pub struct CallArgs {
    /// HTTP method (GET by default).
    pub method: String,
    /// Request headers, each written `NAME: VALUE`.
    pub headers: Vec<String>,
    /// UTF-8 request body.
    pub body: Option<String>,
    /// PitLane endpoint; defaults to `PIT_LANE_ENDPOINT` or 127.0.0.1:7080.
    pub endpoint: Option<String>,
    /// Logical service URI, for example `pit://service-a/hello`.
    pub uri: String,
}

/// A character of an HTTP token (RFC 9110 `tchar`).
pub open spec fn is_tchar(c: char) -> bool {
    ||| ('0' <= c && c <= '9')
    ||| ('A' <= c && c <= 'Z')
    ||| ('a' <= c && c <= 'z')
    ||| c == '!' || c == '#' || c == '$' || c == '%' || c == '&' || c == '\''
    ||| c == '*' || c == '+' || c == '-' || c == '.' || c == '^' || c == '_'
    ||| c == '`' || c == '|' || c == '~'
}

/// The method names HTTP accepts: non-empty tokens.
pub open spec fn method_token(m: Seq<char>) -> bool {
    m.len() > 0 && forall|i: int| 0 <= i < m.len() ==> is_tchar(#[trigger] m[i])
}

/// Trusted: `http::Method::from_bytes` (re-exported by reqwest as
/// `Method`) accepts exactly the non-empty byte strings whose every byte is
/// an RFC 9110 `tchar`: its source looks each byte up in a table of those
/// characters and fails on an empty input. A character outside ASCII
/// encodes as bytes outside the table, so over characters the test is
/// `method_token`.
#[verifier::external_body]
fn method_accepted(method: &str) -> (r: bool)
    ensures
        r == method_token(method@),
{
    reqwest::Method::from_bytes(method.as_bytes()).is_ok()
}

/// What `str::split_once(c)` gives: the text before the first `c` and the
/// text after it.
pub open spec fn split_once(s: Seq<char>, c: char) -> Option<(Seq<char>, Seq<char>)>
    decreases s.len(),
{
    if s.len() == 0 {
        None
    } else if s[0] == c {
        Some((Seq::empty(), s.drop_first()))
    } else {
        match split_once(s.drop_first(), c) {
            Some((a, b)) => Some((seq![s[0]] + a, b)),
            None => None,
        }
    }
}

/// A header argument as a trimmed name and value.
pub open spec fn header_spec(h: Seq<char>) -> Option<(Seq<char>, Seq<char>)> {
    match split_once(h, ':') {
        Some((n, v)) => Some((trim(n), trim(v))),
        None => None,
    }
}

fn split_at_colon(s: &Vec<char>) -> (r: Option<(Vec<char>, Vec<char>)>)
    ensures
        match r {
            Some((a, b)) => split_once(s@, ':') == Some((a@, b@)),
            None => split_once(s@, ':') is None,
        },
{
    let mut i: usize = 0;
    assert(s@.skip(0) =~= s@);
    assert(s@.take(0) =~= Seq::<char>::empty());
    while i < s.len() && s[i] != ':'
        invariant
            i <= s@.len(),
            split_once(s@, ':') == match split_once(s@.skip(i as int), ':') {
                Some((a, b)) => Some((s@.take(i as int) + a, b)),
                None => None,
            },
        decreases s.len() - i,
    {
        let ghost t = s@.skip(i as int);
        assert(t.drop_first() =~= s@.skip(i + 1));
        assert(s@.take(i + 1) =~= s@.take(i as int) + seq![t[0]]);
        proof {
            match split_once(t.drop_first(), ':') {
                Some((a, b)) => {
                    assert(s@.take(i as int) + (seq![t[0]] + a) =~= s@.take(i + 1) + a);
                },
                None => {},
            }
        }
        i = i + 1;
    }
    if i == s.len() {
        assert(s@.skip(i as int) =~= Seq::<char>::empty());
        return None;
    }
    let mut a: Vec<char> = Vec::new();
    let mut k: usize = 0;
    while k < i
        invariant
            k <= i < s@.len(),
            a@ == s@.take(k as int),
        decreases i - k,
    {
        a.push(s[k]);
        k = k + 1;
        assert(a@ =~= s@.take(k as int));
    }
    let mut b: Vec<char> = Vec::new();
    let mut j: usize = i + 1;
    while j < s.len()
        invariant
            i < j <= s@.len(),
            b@ == s@.subrange(i + 1, j as int),
        decreases s.len() - j,
    {
        b.push(s[j]);
        j = j + 1;
        assert(b@ =~= s@.subrange(i + 1, j as int));
    }
    proof {
        let t = s@.skip(i as int);
        assert(t.drop_first() =~= s@.subrange(i + 1, s@.len() as int));
        assert(s@.take(i as int) + Seq::<char>::empty() =~= s@.take(i as int));
    }
    Some((a, b))
}

/// A header argument split at its first `:` into a trimmed name and value.
pub fn parse_header(header: &str) -> (r: Option<(String, String)>)
    ensures
        match r {
            Some((n, v)) => header_spec(header@) == Some((n@, v@)),
            None => header_spec(header@) is None,
        },
{
    let c = chars_of(header);
    match split_at_colon(&c) {
        Some((a, b)) => {
            let n = trim_chars(&a);
            let v = trim_chars(&b);
            Some((string_of(&n), string_of(&v)))
        },
        None => None,
    }
}

/// Why a call cannot be made.
#[derive(Debug, Clone, Copy, PartialEq, Eq, Structural)]
pub enum CallError {
    /// The method is not an HTTP token.
    InvalidMethod,
    /// A header argument has no `:`.
    HeaderFormat,
}

impl CallError {
    pub open spec fn text(self) -> Seq<char> {
        match self {
            CallError::InvalidMethod => "invalid HTTP method"@,
            CallError::HeaderFormat => "header must use NAME: VALUE"@,
        }
    }

    pub fn message(&self) -> (s: String)
        ensures
            s@ == self.text(),
    {
        match self {
            CallError::InvalidMethod => String::from_str("invalid HTTP method"),
            CallError::HeaderFormat => String::from_str("header must use NAME: VALUE"),
        }
    }
}

/// The PitLane endpoint: the one given, else the environment's, else the
/// local default.
pub open spec fn call_endpoint_spec(given: Option<Seq<char>>, env: Option<Seq<char>>) -> Seq<char> {
    match given {
        Some(e) => e,
        None => match env {
            Some(e) => e,
            None => "http://127.0.0.1:7080"@,
        },
    }
}

/// The request `pit call` sends.
#[derive(Debug)]
pub struct CallRequest {
    pub method: String,
    pub url: String,
    /// The value of the `X-Pit-Service` header.
    pub service: String,
    pub headers: Vec<(String, String)>,
    pub body: Option<String>,
}

pub open spec fn pairs_view(v: Seq<(String, String)>) -> Seq<(Seq<char>, Seq<char>)> {
    v.map_values(|p: (String, String)| (p.0@, p.1@))
}

pub open spec fn texts_view(v: Seq<String>) -> Seq<Seq<char>> {
    v.map_values(|s: String| s@)
}

/// Every header argument holds a `:`.
pub open spec fn headers_well_formed(hs: Seq<Seq<char>>) -> bool {
    forall|i: int| 0 <= i < hs.len() ==> (#[trigger] header_spec(hs[i])) is Some
}

/// The call for a parsed logical URI (its service and path with query):
/// refused when the method is not an HTTP token, then when a header has no
/// `:`; otherwise each header is split and trimmed, in order.
pub fn call_request(
    args: &CallArgs,
    env_endpoint: &Option<String>,
    service: &str,
    path_and_query: &str,
) -> (r: Result<CallRequest, CallError>)
    ensures
        match r {
            Ok(q) => {
                &&& method_token(args.method@)
                &&& headers_well_formed(texts_view(args.headers@))
                &&& q.method@ == args.method@
                &&& q.url@ == endpoint_url_spec(
                    call_endpoint_spec(opt_view(args.endpoint), opt_view(*env_endpoint)),
                    path_and_query@,
                )
                &&& q.service@ == service@
                &&& q.headers@.len() == args.headers@.len()
                &&& forall|i: int|
                    0 <= i < args.headers@.len() ==> header_spec(args.headers@[i]@) == Some(
                        (#[trigger] pairs_view(q.headers@)[i]),
                    )
                &&& opt_view(q.body) == opt_view(args.body)
            },
            Err(e) => {
                &&& !method_token(args.method@) ==> e == CallError::InvalidMethod
                &&& method_token(args.method@) ==> e == CallError::HeaderFormat
                    && !headers_well_formed(texts_view(args.headers@))
            },
        },
{
    if !method_accepted(args.method.as_str()) {
        return Err(CallError::InvalidMethod);
    }
    let endpoint = match &args.endpoint {
        Some(e) => copy_text(e),
        None => match env_endpoint {
            Some(e) => copy_text(e),
            None => String::from_str("http://127.0.0.1:7080"),
        },
    };
    let url = endpoint_url(endpoint.as_str(), path_and_query);
    let mut headers: Vec<(String, String)> = Vec::new();
    let ghost hv = texts_view(args.headers@);
    let mut i: usize = 0;
    while i < args.headers.len()
        invariant
            i <= args.headers@.len(),
            method_token(args.method@),
            hv == texts_view(args.headers@),
            headers@.len() == i,
            forall|k: int| 0 <= k < i ==> (#[trigger] header_spec(hv[k])) is Some,
            forall|k: int|
                0 <= k < i ==> header_spec(args.headers@[k]@) == Some(
                    (#[trigger] pairs_view(headers@)[k]),
                ),
        decreases args.headers.len() - i,
    {
        match parse_header(args.headers[i].as_str()) {
            Some(p) => {
                let ghost before = headers@;
                headers.push(p);
                proof {
                    assert forall|k: int| 0 <= k < i + 1 implies header_spec(
                        args.headers@[k]@,
                    ) == Some((#[trigger] pairs_view(headers@)[k])) by {
                        if k < i {
                            assert(headers@[k] == before[k]);
                            assert(pairs_view(before)[k] == pairs_view(headers@)[k]);
                        } else {
                            assert(headers@[k] == p);
                        }
                    }
                }
            },
            None => {
                assert(hv[i as int] == args.headers@[i as int]@);
                assert(header_spec(hv[i as int]) is None);
                assert(!headers_well_formed(hv));
                return Err(CallError::HeaderFormat);
            },
        }
        i = i + 1;
    }
    Ok(
        CallRequest {
            method: copy_text(&args.method),
            url,
            service: String::from_str(service),
            headers,
            body: copy_opt_text(&args.body),
        },
    )
}

/// Whether the printed reply body needs a final newline.
pub fn needs_newline(body: &Vec<u8>) -> (r: bool)
    ensures
        r == !(body@.len() > 0 && body@.last() == 10),
{
    !(body.len() > 0 && body[body.len() - 1] == 10)
}


/// The name and value sent for a header argument carry no surrounding
/// white space.
pub proof fn law_header_parts_trimmed(h: Seq<char>)
    ensures
        header_spec(h) matches Some((n, v)) ==> trim(n) == n && trim(v) == v,
{
    match split_once(h, ':') {
        Some((n, v)) => {
            crate::text::law_trim_idempotent(n);
            crate::text::law_trim_idempotent(v);
        },
        None => {},
    }
}
} // verus!
