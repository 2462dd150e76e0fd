//! API keys of a project: how a key is made, shown and stored.
use vstd::prelude::*;
use crate::server::digest::{hex_encode, hex_lower, lemma_hex_chars, lemma_hex_len};
use crate::server::handlers::{api_key_hash, is_uuid_v4_text, key_hash_of, new_record_id};
use crate::text::{chars_of, string_of, strip_prefix};

verus! {

/// An API key as listed for its project.
#[derive(Debug, Clone)]
pub struct ApiKey {
    pub id: String,
    pub project_id: String,
    pub key_prefix: String,
    pub name: String,
    pub created_at: String,
    pub revoked_at: Option<String>,
}

/// A newly created API key, the only time the full key is shown.
#[derive(Debug, Clone)]
pub struct ApiKeyCreated {
    pub id: String,
    pub key: String,
    pub key_prefix: String,
    pub name: String,
}

/// A request to create an API key.
#[derive(Debug, Clone)]
pub struct CreateApiKey {
    pub name: String,
}

/// A freshly made key: the key itself, the prefix kept for display, and the
/// hash under which it is stored.
#[derive(Debug, Clone)]
pub struct ApiKeyMaterial {
    pub raw_key: String,
    pub key_prefix: String,
    pub key_hash: String,
}

/// The key made from `random`: `mdr_` and the hex encoding of the bytes.
pub open spec fn api_key_text(random: Seq<u8>) -> Seq<char> {
    "mdr_"@ + hex_lower(random)
}

/// What is kept of a key for display: its first twelve characters and `...`.
pub open spec fn key_display_prefix(key: Seq<char>) -> Seq<char> {
    key.take(12) + "..."@
}

/// The key, display prefix and stored hash made from the given random bytes.
pub fn api_key_from_random(random: &[u8]) -> (m: ApiKeyMaterial)
    requires
        random@.len() >= 4,
    ensures
        m.raw_key@ == api_key_text(random@),
        m.key_prefix@ == key_display_prefix(m.raw_key@),
        m.key_hash@ == key_hash_of(m.raw_key@),
{
    let hex = hex_encode(random);
    let mut raw = String::from_str("mdr_");
    raw.append(hex.as_str());
    proof {
        reveal_strlit("mdr_");
        lemma_hex_len(random@);
    }
    let cs = chars_of(raw.as_str());
    let mut prefix = string_of(&cs, 0, 12);
    prefix.append("...");
    assert(cs@.subrange(0, 12) == raw@.take(12));
    let key_hash = api_key_hash(raw.as_str());
    ApiKeyMaterial { raw_key: raw, key_prefix: prefix, key_hash }
}

/// 24 random bytes (`rand::random::<[u8; 24]>`): the trusted contract is only
/// the length; the values are whatever the thread-local generator yields.
#[verifier::external_body]
fn random_key_bytes() -> (r: Vec<u8>)
    ensures
        r@.len() == 24,
{
    rand::random::<[u8; 24]>().to_vec()
}

/// A new API key made from 24 random bytes.
pub fn new_api_key() -> (m: ApiKeyMaterial)
    ensures
        exists|random: Seq<u8>|
            random.len() == 24 && #[trigger] api_key_text(random) == m.raw_key@,
        m.key_prefix@ == key_display_prefix(m.raw_key@),
        m.key_hash@ == key_hash_of(m.raw_key@),
{
    let random = random_key_bytes();
    let m = api_key_from_random(random.as_slice());
    assert(api_key_text(random@) == m.raw_key@);
    m
}

/// The record of a new API key of the given name, as the creating request is
/// answered, and the hash under which the key is to be stored.
pub fn create_key_record(name: String) -> (r: (ApiKeyCreated, String))
    ensures
        r.0.name == name,
        is_uuid_v4_text(r.0.id@),
        exists|random: Seq<u8>|
            random.len() == 24 && #[trigger] api_key_text(random) == r.0.key@,
        r.0.key_prefix@ == key_display_prefix(r.0.key@),
        r.1@ == key_hash_of(r.0.key@),
{
    let id = new_record_id();
    let m = new_api_key();
    (ApiKeyCreated { id, key: m.raw_key, key_prefix: m.key_prefix, name }, m.key_hash)
}

/// A key made from 24 bytes is `mdr_` followed by 48 lower-case hex digits,
/// and its display prefix is `mdr_`, the first eight of them, and `...`.
pub proof fn law_api_key_shape(random: Seq<u8>)
    requires
        random.len() == 24,
    ensures
        api_key_text(random).len() == 52,
        api_key_text(random).take(4) == "mdr_"@,
        forall|i: int|
            4 <= i < 52 ==> {
                let c = #[trigger] api_key_text(random)[i];
                ('0' <= c <= '9') || ('a' <= c <= 'f')
            },
        key_display_prefix(api_key_text(random)) == "mdr_"@ + hex_lower(random).take(8) + "..."@,
{
    reveal_strlit("mdr_");
    lemma_hex_len(random);
    lemma_hex_chars(random);
    let k = api_key_text(random);
    assert(k.take(4) =~= "mdr_"@);
    assert forall|i: int| 4 <= i < 52 implies {
        let c = #[trigger] k[i];
        ('0' <= c <= '9') || ('a' <= c <= 'f')
    } by {
        assert(k[i] == hex_lower(random)[i - 4]);
    }
    assert(k.take(12) =~= "mdr_"@ + hex_lower(random).take(8));
}

/// A key presented as `Authorization: Bearer <key>` yields the key itself as
/// the bearer token, and so is looked up under exactly the hash that was
/// stored when it was created.
pub proof fn law_created_key_authenticates(random: Seq<u8>)
    ensures
        strip_prefix("Bearer "@ + api_key_text(random), "Bearer "@) matches Some(token) && token
            == api_key_text(random) && key_hash_of(token) == key_hash_of(api_key_text(random)),
{
    let h = "Bearer "@ + api_key_text(random);
    assert(h.take("Bearer "@.len() as int) =~= "Bearer "@);
    assert(h.skip("Bearer "@.len() as int) =~= api_key_text(random));
}

} // verus!
