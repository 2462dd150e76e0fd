//! Request handling: authentication of requests and the decisions of each
//! group of endpoints.
pub mod api_keys;
pub mod auth;
pub mod projects;
pub mod public_api;
pub mod runs;
pub mod tests;

use vstd::prelude::*;
use crate::server::digest::{hex_encode, hex_lower, sha256, sha256_digest};
use crate::text::{
    chars_of, count_ws_lead, find_char_from, lemma_next_index_of, next_index_of, count_ws_trail, starts_with_at, string_of, strip_prefix,
    strip_prefix_of, trim, trim_start,
};
use vstd::utf8::encode_utf8;

verus! {

/// Authenticated user extractor using FutureAuth session cookie.
#[derive(Debug, Clone)]
pub struct AuthUser {
    pub user_id: String,
    pub email: String,
}

/// API key auth extractor for public API
#[derive(Debug, Clone)]
pub struct ApiKeyAuth {
    pub project_id: String,
}

/// The name under which FutureAuth keeps its session token in a cookie.
pub open spec fn session_cookie_prefix() -> Seq<char> {
    "futureauth_session="@
}

/// The session token in the `;`-separated cookie entries of `s` from index
/// `i` on: from the first entry that, trimmed, starts with
/// `futureauth_session=`, what follows that prefix.
pub open spec fn session_token_from(s: Seq<char>, i: int) -> Option<Seq<char>>
    decreases s.len() - i,
{
    if i < 0 || i > s.len() {
        None
    } else {
        let j = next_index_of(s, ';', i);
        proof {
            lemma_next_index_of(s, ';', i);
        }
        match strip_prefix(trim(s.subrange(i, j)), session_cookie_prefix()) {
            Some(t) => Some(t),
            None => if j < s.len() {
                session_token_from(s, j + 1)
            } else {
                None
            },
        }
    }
}

/// The session token a `Cookie` header carries.
pub open spec fn session_token_of(cookie_header: Seq<char>) -> Option<Seq<char>> {
    session_token_from(cookie_header, 0)
}

/// The session token of a `Cookie` header: the first `;`-separated entry
/// that, trimmed, starts with `futureauth_session=`, without that prefix.
pub fn session_token(cookie_header: &str) -> (r: Option<String>)
    ensures
        r.deep_view() == session_token_of(cookie_header@),
{
    let cs = chars_of(cookie_header);
    let prefix = chars_of("futureauth_session=");
    let n = cs.len();
    let mut i: usize = 0;
    loop
        invariant
            i <= n == cs.len(),
            cs@ == cookie_header@,
            prefix@ == session_cookie_prefix(),
            session_token_of(cookie_header@) == session_token_from(cs@, i as int),
        decreases n - i,
    {
        let j = find_char_from(&cs, ';', i);
        let a = count_ws_lead(&cs, i, j);
        let b = count_ws_trail(&cs, i + a, j);
        let ghost seg = cs@.subrange(i as int, j as int);
        assert(trim_start(seg) =~= cs@.subrange(i + a, j as int));
        assert(trim(seg) =~= cs@.subrange(i + a, j - b));
        if starts_with_at(&cs, i + a, j - b, &prefix) {
            let t = string_of(&cs, i + a + prefix.len(), j - b);
            assert(t@ =~= trim(seg).skip(prefix@.len() as int));
            assert(trim(seg).take(prefix@.len() as int) =~= cs@.subrange(i + a, i + a + prefix@.len()));
            return Some(t);
        }
        proof {
            if prefix@.len() <= trim(seg).len() {
                assert(trim(seg).take(prefix@.len() as int) =~= cs@.subrange(i + a, i + a + prefix@.len()));
            }
        }
        if j >= n {
            return None;
        }
        i = j + 1;
    }
}

/// The token of an `Authorization` header that carries a bearer token.
pub fn bearer_token(authorization: &str) -> (r: Option<String>)
    ensures
        r.deep_view() == strip_prefix(authorization@, "Bearer "@),
{
    strip_prefix_of(authorization, "Bearer ")
}

/// The stored form of an API key: the hex encoding of the SHA-256 digest of
/// its UTF-8 bytes.
pub open spec fn key_hash_of(key: Seq<char>) -> Seq<char> {
    hex_lower(sha256(encode_utf8(key)))
}

/// The hash under which an API key is stored and looked up.
pub fn api_key_hash(key: &str) -> (r: String)
    ensures
        r@ == key_hash_of(key@),
{
    let digest = sha256_digest(key.as_bytes());
    hex_encode(digest.as_slice())
}


/// The HTTP status of a delete or revoke: 404 when no row was affected, 204
/// otherwise.
pub fn removal_status(rows_affected: u64) -> (r: u16)
    ensures
        r == if rows_affected == 0 {
            404u16
        } else {
            204u16
        },
{
    if rows_affected == 0 {
        404
    } else {
        204
    }
}

/// Whether `c` is a lower-case hexadecimal digit.
pub open spec fn is_hex_lower_char(c: char) -> bool {
    ('0' <= c <= '9') || ('a' <= c <= 'f')
}

/// Whether `s` is a version-4 UUID in its hyphenated lower-case form: 36
/// characters, hyphens at 8, 13, 18 and 23, hex digits elsewhere, the version
/// digit `4` at 14 and a variant digit from `8` to `b` at 19.
pub open spec fn is_uuid_v4_text(s: Seq<char>) -> bool {
    &&& s.len() == 36
    &&& forall|i: int|
        0 <= i < 36 ==> if i == 8 || i == 13 || i == 18 || i == 23 {
            #[trigger] s[i] == '-'
        } else {
            is_hex_lower_char(s[i])
        }
    &&& s[14] == '4'
    &&& s[19] == '8' || s[19] == '9' || s[19] == 'a' || s[19] == 'b'
}

/// `uuid::Uuid::new_v4().to_string()`: the trusted contract is the shape of
/// the text. `new_v4` masks a random `u128` so that its version nibble is 4
/// and its variant nibble is 8 to b, and `Display` writes the hyphenated
/// lower-case form. Which random value is drawn is not stated.
#[verifier::external_body]
fn random_uuid_text() -> (id: String)
    ensures
        is_uuid_v4_text(id@),
{
    uuid::Uuid::new_v4().to_string()
}

/// A fresh identifier for a stored record: a random version-4 UUID.
pub fn new_record_id() -> (id: String)
    ensures
        is_uuid_v4_text(id@),
{
    random_uuid_text()
}

} // verus!
