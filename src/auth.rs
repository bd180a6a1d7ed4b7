//! What callers of the HTTP layer see: bearer headers and error responses.

use vstd::prelude::*;
use crate::codec::TokenError;
use crate::login::AuthError;
use crate::markup::ExtractionError;
use crate::text::{is_white_space, substring, white_space};

verus! {

/// An error as a caller sees it: a short stable message and an HTTP status.
#[derive(Clone, Debug, PartialEq, Eq)]
pub struct ResponseError {
    pub message: String,
    pub status_code: u16,
}

fn response(message: &str, status_code: u16) -> (r: ResponseError)
    ensures
        r.message@ == message@,
        r.status_code == status_code,
{
    ResponseError { message: message.to_owned(), status_code }
}

impl ResponseError {
    /// Refused credentials are the caller's fault (401); every other sign-in failure is the
    /// server's or the portal's (500).
    pub fn from_auth(e: AuthError) -> (r: ResponseError)
        ensures
            r.status_code == (if e == AuthError::InvalidCredentials { 401u16 } else { 500u16 }),
            r.message@ == (match e {
                AuthError::InvalidCredentials => "Invalid credentials"@,
                AuthError::UpstreamUnreachable => "CampusDual is not reachable"@,
                _ => "Internal Server Error"@,
            }),
    {
        match e {
            AuthError::InvalidCredentials => response("Invalid credentials", 401),
            AuthError::UpstreamUnreachable => response("CampusDual is not reachable", 500),
            _ => response("Internal Server Error", 500),
        }
    }

    /// A token that is refused is refused alike, whatever stage refused it.
    pub fn from_token(e: TokenError) -> (r: ResponseError)
        ensures
            e != TokenError::EncodingFailed ==> r.status_code == 401 && r.message@ == "Invalid JWT"@,
            e == TokenError::EncodingFailed ==> r.status_code == 500 && r.message@
                == "Internal Server Error"@,
    {
        match e {
            TokenError::EncodingFailed => response("Internal Server Error", 500),
            _ => response("Invalid JWT", 401),
        }
    }

    /// A page that could not be read is the portal's fault.
    pub fn from_extraction(e: ExtractionError) -> (r: ResponseError)
        ensures
            r.status_code == 500 && r.message@ == "Internal Server Error"@,
    {
        response("Internal Server Error", 500)
    }

    pub fn rate_limited() -> (r: ResponseError)
        ensures
            r.status_code == 429 && r.message@ == "Too Many Requests"@,
    {
        response("Too Many Requests", 429)
    }
}

/// The first position at or after `i` that is not white space.
pub open spec fn skip_space(s: Seq<char>, i: int) -> int
    decreases s.len() - i,
{
    if i < 0 || i >= s.len() || !is_white_space(s[i]) {
        i
    } else {
        skip_space(s, i + 1)
    }
}

/// The first position at or after `i` that is white space.
pub open spec fn word_end(s: Seq<char>, i: int) -> int
    decreases s.len() - i,
{
    if i < 0 || i >= s.len() || is_white_space(s[i]) {
        i
    } else {
        word_end(s, i + 1)
    }
}

/// The second white-space separated word of `s`.
pub open spec fn second_word(s: Seq<char>) -> Option<Seq<char>> {
    let first = skip_space(s, 0);
    let second = skip_space(s, word_end(s, first));
    if second < s.len() {
        Some(s.subrange(second, word_end(s, second)))
    } else {
        None
    }
}

proof fn lemma_scan_bounds(s: Seq<char>, i: int)
    requires
        0 <= i <= s.len(),
    ensures
        i <= skip_space(s, i) <= s.len(),
        i <= word_end(s, i) <= s.len(),
    decreases s.len() - i,
{
    if i < s.len() {
        lemma_scan_bounds(s, i + 1);
    }
}

fn skip_space_from(s: &str, i: usize) -> (r: usize)
    requires
        i <= s@.len(),
    ensures
        r == skip_space(s@, i as int),
{
    let n = s.unicode_len();
    let mut k = i;
    proof {
        lemma_scan_bounds(s@, i as int);
    }
    while k < n && white_space(s.get_char(k))
        invariant
            n == s@.len(),
            i <= k <= n,
            skip_space(s@, i as int) == skip_space(s@, k as int),
        decreases n - k,
    {
        k = k + 1;
    }
    k
}

fn word_end_from(s: &str, i: usize) -> (r: usize)
    requires
        i <= s@.len(),
    ensures
        r == word_end(s@, i as int),
{
    let n = s.unicode_len();
    let mut k = i;
    while k < n && !white_space(s.get_char(k))
        invariant
            n == s@.len(),
            i <= k <= n,
            word_end(s@, i as int) == word_end(s@, k as int),
        decreases n - k,
    {
        k = k + 1;
    }
    k
}

/// The token of an `Authorization` header (its second word, after the scheme): 403 where the
/// header is missing or holds no token.
pub fn bearer_token(header: Option<&str>) -> (r: Result<String, ResponseError>)
    ensures
        header is None ==> (r matches Err(e) && e.status_code == 403 && e.message@
            == "JWT token is missing"@),
        header matches Some(h) ==> match second_word(h@) {
            Some(t) => (r matches Ok(token) && token@ == t),
            None => (r matches Err(e) && e.status_code == 403 && e.message@
                == "Malformed authorization header"@),
        },
{
    let h = match header {
        Some(h) => h,
        None => return Err(response("JWT token is missing", 403)),
    };
    let first = skip_space_from(h, 0);
    proof {
        lemma_scan_bounds(h@, 0);
        lemma_scan_bounds(h@, first as int);
    }
    let first_end = word_end_from(h, first);
    proof {
        lemma_scan_bounds(h@, first_end as int);
    }
    let second = skip_space_from(h, first_end);
    if second >= h.unicode_len() {
        return Err(response("Malformed authorization header", 403));
    }
    proof {
        lemma_scan_bounds(h@, second as int);
    }
    let second_end = word_end_from(h, second);
    Ok(substring(h, second, second_end))
}

} // verus!
