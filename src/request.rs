//! Requests: the user-agent pool, API-mode request lines and the reading of
//! API-mode responses.

use vstd::prelude::*;
use rand::seq::IndexedRandom;

use crate::text::{contains, contains_text, lemma_split_on_char, split_first, up_to};

verus! {

/// Relies on rand's `IndexedRandom::choose`: `None` for an empty list, else a
/// reference to one of its elements, drawn at random.
#[verifier::external_body]
pub(crate) fn choose_one(items: &Vec<String>) -> (r: Option<&String>)
    ensures
        r is None <==> items@.len() == 0,
        r matches Some(x) ==> items@.contains(*x),
{
    items.choose(&mut rand::rng())
}

/// A pool of user-agent strings to draw from.
pub struct RandomUserAgent {
    user_agents: Vec<String>,
}

impl RandomUserAgent {
    pub closed spec fn agents(&self) -> Seq<String> {
        self.user_agents@
    }

    pub fn new(user_agents: Vec<String>) -> (r: RandomUserAgent)
        ensures
            r.agents() == user_agents@,
    {
        RandomUserAgent { user_agents }
    }

    /// One of the pool's user agents, drawn at random; `None` for an empty pool.
    pub fn get_random(&self) -> (r: Option<String>)
        ensures
            r is None <==> self.agents().len() == 0,
            r matches Some(a) ==> self.agents().contains(a),
    {
        match choose_one(&self.user_agents) {
            Some(a) => Some(a.clone()),
            None => None,
        }
    }
}

/// A byte that URL encoding keeps as it is: ASCII letters and digits, `-`, `.`,
/// `_` and `~`.
pub open spec fn unreserved(b: u8) -> bool {
    (48 <= b && b <= 57) || (65 <= b && b <= 90) || (97 <= b && b <= 122) || b == 45 || b == 46 || b
        == 95 || b == 126
}

pub open spec fn hex_upper(d: u8) -> char {
    if d < 10 {
        (48 + d) as char
    } else {
        (55 + d) as char
    }
}

/// Percent-encoding of a byte string: every byte that is not unreserved becomes
/// `%` and two upper-case hex digits.
pub open spec fn percent_encoded(bytes: Seq<u8>) -> Seq<char>
    decreases bytes.len(),
{
    if bytes.len() == 0 {
        Seq::empty()
    } else {
        let b = bytes[0];
        (if unreserved(b) {
            seq![b as char]
        } else {
            seq!['%', hex_upper(b / 16), hex_upper(b % 16)]
        }) + percent_encoded(bytes.skip(1))
    }
}

/// Relies on `urlencoding::encode`: percent-encodes every byte of the UTF-8
/// encoding except ASCII alphanumerics and `-`, `_`, `.`, `~`, with upper-case
/// hex digits.
#[verifier::external_body]
fn url_encode(s: &str) -> (r: String)
    ensures
        r@ == percent_encoded(vstd::utf8::encode_utf8(s@)),
{
    urlencoding::encode(s).into_owned()
}

/// A character allowed in an HTTP method name (a `tchar` of RFC 9110).
pub open spec fn method_char(c: char) -> bool {
    let u = c as u32;
    (48 <= u && u <= 57) || (65 <= u && u <= 90) || (97 <= u && u <= 122) || c == '!' || c == '#' || c
        == '$' || c == '%' || c == '&' || c == '\'' || c == '*' || c == '+' || c == '-' || c == '.'
        || c == '^' || c == '_' || c == '`' || c == '|' || c == '~'
}

pub open spec fn method_name(m: Seq<char>) -> bool {
    m.len() > 0 && forall|i: int| 0 <= i < m.len() ==> method_char(#[trigger] m[i])
}

/// Relies on `reqwest::Method::from_bytes` (the `http` crate's): a method is
/// accepted exactly when it is non-empty and made of `tchar` bytes only.
#[verifier::external_body]
fn is_method(m: &str) -> (r: bool)
    ensures
        r == method_name(m@),
{
    reqwest::Method::from_bytes(m.as_bytes()).is_ok()
}

/// `s` with every occurrence of `pat` replaced by `with`, scanning left to right.
pub open spec fn replaced(s: Seq<char>, pat: Seq<char>, with: Seq<char>) -> Seq<char>
    decreases s.len(),
{
    if s.len() == 0 || pat.len() == 0 {
        s
    } else if pat.len() <= s.len() && s.subrange(0, pat.len() as int) == pat {
        with + replaced(s.skip(pat.len() as int), pat, with)
    } else {
        seq![s[0]] + replaced(s.skip(1), pat, with)
    }
}

/// Relies on `str::replace`: every non-overlapping match of `pat`, from left to
/// right, replaced by `with`.
#[verifier::external_body]
fn replace_all(s: &str, pat: &str, with: &str) -> (r: String)
    requires
        pat@.len() > 0,
    ensures
        r@ == replaced(s@, pat@, with@),
{
    s.replace(pat, with)
}

pub open spec fn user_marker() -> Seq<char> {
    seq!['U', 'S', 'E', 'R']
}

/// A request of API mode, ready to be sent.
pub struct ApiRequest {
    pub method: String,
    pub url: String,
    pub user_agent: String,
    pub body: Option<String>,
}

/// Why an API-mode query line is refused.
#[derive(Debug, Clone, Copy, PartialEq, Eq, Structural)]
pub enum ApiQueryError {
    /// The line is not `<METHOD> <SITE> <DATA>`.
    MissingParts,
    /// The method is not a valid HTTP method name.
    InvalidMethod,
}

/// The three parts of a query line `<METHOD> <SITE> <DATA>`: split at the first
/// two spaces; the data may hold further spaces.
pub open spec fn api_parts(q: Seq<char>) -> Option<(Seq<char>, Seq<char>, Seq<char>)> {
    let method = up_to(q, ' ');
    if method.len() == q.len() {
        None
    } else {
        let rest = q.skip(method.len() as int + 1);
        let site = up_to(rest, ' ');
        if site.len() == rest.len() {
            None
        } else {
            Some((method, site, rest.skip(site.len() as int + 1)))
        }
    }
}

/// What a query line becomes for a target: the request's method, URL (the site
/// with `USER` replaced by the encoded target) and body (none when the data is
/// empty), or the reason it is refused.
pub open spec fn api_request_of(q: Seq<char>, target: Seq<char>) -> Result<
    (Seq<char>, Seq<char>, Option<Seq<char>>),
    ApiQueryError,
> {
    match api_parts(q) {
        None => Err(ApiQueryError::MissingParts),
        Some((method, site, data)) => {
            if !method_name(method) {
                Err(ApiQueryError::InvalidMethod)
            } else {
                Ok(
                    (
                        method,
                        replaced(site, user_marker(), percent_encoded(vstd::utf8::encode_utf8(target))),
                        if data.len() == 0 {
                            None
                        } else {
                            Some(data)
                        },
                    ),
                )
            }
        },
    }
}

pub open spec fn request_view(r: ApiRequest) -> (Seq<char>, Seq<char>, Option<Seq<char>>) {
    (
        r.method@,
        r.url@,
        match r.body {
            Some(b) => Some(b@),
            None => None,
        },
    )
}

/// Builds API-mode requests for one target.
pub struct ApiMode {
    target: String,
}

impl ApiMode {
    pub closed spec fn target(&self) -> Seq<char> {
        self.target@
    }

    pub fn new(target: String) -> (r: ApiMode)
        ensures
            r.target() == target@,
    {
        ApiMode { target }
    }

    /// The request that a query line `<METHOD> <SITE> <DATA>` stands for.
    pub fn build(&self, query: &str, user_agent: String) -> (r: Result<ApiRequest, ApiQueryError>)
        ensures
            match r {
                Ok(req) => api_request_of(query@, self.target()) == Ok::<
                    (Seq<char>, Seq<char>, Option<Seq<char>>),
                    ApiQueryError,
                >(request_view(req)) && req.user_agent@ == user_agent@,
                Err(e) => api_request_of(query@, self.target()) == Err::<
                    (Seq<char>, Seq<char>, Option<Seq<char>>),
                    ApiQueryError,
                >(e),
            },
    {
        proof {
            reveal_strlit(" ");
            reveal_strlit("USER");
            assert(" "@ =~= seq![' ']);
            assert("USER"@ =~= user_marker());
        }
        let (method, rest) = match split_first(query, " ") {
            Some(p) => p,
            None => {
                proof {
                    lemma_split_on_char(query@, ' ', Seq::empty(), Seq::empty());
                }
                return Err(ApiQueryError::MissingParts);
            },
        };
        proof {
            lemma_split_on_char(query@, ' ', method@, rest@);
        }
        let (site, data) = match split_first(rest, " ") {
            Some(p) => p,
            None => {
                proof {
                    lemma_split_on_char(rest@, ' ', Seq::empty(), Seq::empty());
                }
                return Err(ApiQueryError::MissingParts);
            },
        };
        proof {
            lemma_split_on_char(rest@, ' ', site@, data@);
        }
        if !is_method(method) {
            return Err(ApiQueryError::InvalidMethod);
        }
        let encoded = url_encode(self.target.as_str());
        let url = replace_all(site, "USER", encoded.as_str());
        let body = if data.unicode_len() == 0 {
            None
        } else {
            Some(String::from_str(data))
        };
        Ok(ApiRequest { method: String::from_str(method), url, user_agent, body })
    }
}

/// How an API-mode response reads.
#[derive(Debug, Clone, Copy, PartialEq, Eq, Structural)]
pub enum ApiVerdict {
    /// A success whose body does not say the profile is missing.
    Found,
    /// A success whose body holds `Not Found` or `404`.
    NotFound,
    /// Not a success status: nothing to read.
    Ignored,
}

pub open spec fn verdict_of(success: bool, body: Seq<char>) -> ApiVerdict {
    if !success {
        ApiVerdict::Ignored
    } else if contains(body, seq!['N', 'o', 't', ' ', 'F', 'o', 'u', 'n', 'd']) || contains(
        body,
        seq!['4', '0', '4'],
    ) {
        ApiVerdict::NotFound
    } else {
        ApiVerdict::Found
    }
}

/// Reads one API-mode response from its status class and body.
pub fn classify_response(success: bool, body: &str) -> (r: ApiVerdict)
    ensures
        r == verdict_of(success, body@),
{
    proof {
        reveal_strlit("Not Found");
        reveal_strlit("404");
        assert("Not Found"@ =~= seq!['N', 'o', 't', ' ', 'F', 'o', 'u', 'n', 'd']);
        assert("404"@ =~= seq!['4', '0', '4']);
    }
    if !success {
        ApiVerdict::Ignored
    } else if contains_text(body, "Not Found") || contains_text(body, "404") {
        ApiVerdict::NotFound
    } else {
        ApiVerdict::Found
    }
}

} // verus!
