//! Bearer-token authentication: tokens are stored as the lowercase hex of
//! their SHA-256, and a revoked or expired token is indistinguishable from an
//! unknown one (the same 401).

use vstd::prelude::*;
use vstd::string::*;
use crate::crypto::{sha256_hex, sha256_hex_spec};
use crate::error::{ApiErr, ApiResult, unauthorized_view};
use crate::text::{chars_of, has_prefix, string_of, sub_chars};

verus! {

/// A stored registry token. Timestamps are microseconds since the Unix
/// epoch.
#[derive(Debug, Clone)]
pub struct Token {
    pub id: u128,
    pub name: String,
    pub token_hash: String,
    /// `Some(org)` limits the token to that org; `None` is an admin token.
    pub org_id: Option<u128>,
    /// The role within the org scope: `owner`, `publisher` or `reader`.
    pub role: String,
    pub created_at: i64,
    /// When the token stops being accepted (`None`: never).
    pub expires_at: Option<i64>,
    /// When the token was revoked (`None`: live).
    pub revoked_at: Option<i64>,
}

/// The stored hash of a token's plaintext: lowercase hex SHA-256 of its UTF-8
/// bytes.
pub open spec fn token_hash_spec(plaintext: Seq<char>) -> Seq<char> {
    sha256_hex_spec(vstd::utf8::encode_utf8(plaintext))
}

/// Hash a token plaintext for storage and lookup.
pub fn hash_token(plaintext: &str) -> (r: String)
    ensures
        r@ == token_hash_spec(plaintext@),
        r@.len() == 64,
{
    sha256_hex(plaintext.as_bytes())
}

/// `char::is_whitespace`: the Unicode `White_Space` characters.
pub open spec fn is_ws(c: char) -> bool {
    ('\u{9}' <= c && c <= '\u{d}') || c == ' ' || c == '\u{85}' || c == '\u{a0}'
        || c == '\u{1680}' || ('\u{2000}' <= c && c <= '\u{200a}') || c == '\u{2028}'
        || c == '\u{2029}' || c == '\u{202f}' || c == '\u{205f}' || c == '\u{3000}'
}

pub fn is_whitespace(c: char) -> (r: bool)
    ensures
        r == is_ws(c),
{
    ('\u{9}' <= c && c <= '\u{d}') || c == ' ' || c == '\u{85}' || c == '\u{a0}'
        || c == '\u{1680}' || ('\u{2000}' <= c && c <= '\u{200a}') || c == '\u{2028}'
        || c == '\u{2029}' || c == '\u{202f}' || c == '\u{205f}' || c == '\u{3000}'
}

/// `s` without its leading whitespace.
pub open spec fn trim_start(s: Seq<char>) -> Seq<char>
    decreases s.len(),
{
    if s.len() > 0 && is_ws(s[0]) { trim_start(s.drop_first()) } else { s }
}

/// `s` without its trailing whitespace.
pub open spec fn trim_end(s: Seq<char>) -> Seq<char>
    decreases s.len(),
{
    if s.len() > 0 && is_ws(s.last()) { trim_end(s.drop_last()) } else { s }
}

/// `str::trim`: `s` without leading or trailing whitespace.
pub open spec fn trim(s: Seq<char>) -> Seq<char> {
    trim_end(trim_start(s))
}

/// The trimmed form of a character sequence.
pub fn trim_chars(s: &[char]) -> (r: Vec<char>)
    ensures
        r@ == trim(s@),
{
    let n = s.len();
    let mut a: usize = 0;
    assert(s@.subrange(0, n as int) =~= s@);
    while a < n && is_whitespace(s[a])
        invariant
            n == s@.len(),
            a <= n,
            trim_start(s@) == trim_start(s@.subrange(a as int, n as int)),
        decreases n - a,
    {
        assert(s@.subrange(a as int, n as int).drop_first() =~= s@.subrange(a + 1, n as int));
        a = a + 1;
    }
    assert(trim_start(s@.subrange(a as int, n as int)) == s@.subrange(a as int, n as int));
    let mut b: usize = n;
    while b > a && is_whitespace(s[b - 1])
        invariant
            n == s@.len(),
            a <= b <= n,
            trim(s@) == trim_end(s@.subrange(a as int, b as int)),
        decreases b,
    {
        assert(s@.subrange(a as int, b as int).drop_last() =~= s@.subrange(a as int, b - 1));
        b = b - 1;
    }
    assert(trim_end(s@.subrange(a as int, b as int)) == s@.subrange(a as int, b as int));
    let mut r: Vec<char> = Vec::new();
    let mut i: usize = a;
    while i < b
        invariant
            a <= i <= b <= n,
            n == s@.len(),
            r@ == s@.subrange(a as int, i as int),
        decreases b - i,
    {
        r.push(s[i]);
        i = i + 1;
        assert(r@ =~= s@.subrange(a as int, i as int));
    }
    r
}

/// The token carried by an `Authorization` header value: the text after
/// `Bearer `, trimmed.
pub open spec fn bearer_spec(header: Seq<char>) -> Option<Seq<char>> {
    if header.len() >= 7 && header.subrange(0, 7) == "Bearer "@ {
        Some(trim(header.subrange(7, header.len() as int)))
    } else {
        None
    }
}

/// Extract the bearer token from the `Authorization` header's text, if the
/// header is present and readable.
pub fn bearer_token(authorization: Option<&str>) -> (r: Option<String>)
    ensures
        authorization is None ==> r is None,
        authorization matches Some(h) ==> match bearer_spec(h@) {
            Some(t) => r matches Some(s) && s@ == t,
            None => r is None,
        },
{
    match authorization {
        None => None,
        Some(h) => {
            let cs = chars_of(h);
            if !has_prefix(cs.as_slice(), "Bearer ") {
                return None;
            }
            proof { reveal_strlit("Bearer "); }
            let rest = sub_chars(cs.as_slice(), 7, cs.len());
            let t = trim_chars(rest.as_slice());
            Some(string_of(t.as_slice()))
        },
    }
}

/// Whether a stored token is accepted at time `now`: not revoked, and not
/// past its expiry (an expiry equal to `now` has passed).
pub open spec fn token_live(t: Token, now: i64) -> bool {
    t.revoked_at is None && match t.expires_at {
        Some(e) => e > now,
        None => true,
    }
}

/// Decide a lookup's outcome: a token found by its hash is accepted only
/// while live; a missing, revoked or expired token is the same 401.
pub fn authenticate(found: Option<Token>, now: i64) -> (r: ApiResult<Token>)
    ensures
        match found {
            Some(t) => if token_live(t, now) {
                r matches Ok(u) && u == t
            } else {
                r matches Err(e) && e@ == unauthorized_view()
            },
            None => r matches Err(e) && e@ == unauthorized_view(),
        },
{
    match found {
        None => Err(ApiErr::unauthorized()),
        Some(t) => {
            if t.revoked_at.is_some() {
                return Err(ApiErr::unauthorized());
            }
            match t.expires_at {
                Some(e) => {
                    if e <= now {
                        return Err(ApiErr::unauthorized());
                    }
                },
                None => {},
            }
            Ok(t)
        },
    }
}

/// Revocation wins over a valid expiry: a revoked token is never live,
/// whatever its expiry and whatever the time.
pub proof fn lemma_revocation_beats_expiry(t: Token, now: i64)
    requires
        t.revoked_at is Some,
    ensures
        !token_live(t, now),
{
}


/// Id of the operator token used while authentication is switched off.
pub const OPERATOR_TOKEN_ID: u128 = 1;

/// The stored operator token used while authentication is switched off: an
/// admin token (no org scope) named `auth-disabled-operator`, never expiring.
pub fn insecure_operator_token(created_at: i64) -> (r: Token)
    ensures
        r.id == OPERATOR_TOKEN_ID,
        r.name@ == "auth-disabled-operator"@,
        r.token_hash@ == token_hash_spec("zed-auth-disabled-operator"@),
        r.org_id is None,
        r.role@ == "admin"@,
        r.created_at == created_at,
        r.expires_at is None,
        r.revoked_at is None,
{
    Token {
        id: OPERATOR_TOKEN_ID,
        name: crate::text::owned("auth-disabled-operator"),
        token_hash: hash_token("zed-auth-disabled-operator"),
        org_id: None,
        role: crate::text::owned("admin"),
        created_at,
        expires_at: None,
        revoked_at: None,
    }
}

} // verus!
