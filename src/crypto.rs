//! The outside primitives that sealed tokens rest on: AES-256-GCM, base64, random nonces,
//! and HMAC-signed JWTs.

use vstd::prelude::*;
use aes_gcm::aead::{Aead, KeyInit};
use base64::Engine;
use jsonwebtoken::{DecodingKey, EncodingKey};
use serde_json::Value;
use crate::types::Claims;

verus! {

#[verifier::external_type_specification]
#[verifier::external_body]
pub struct ExDecodingKey(DecodingKey);

#[verifier::external_type_specification]
#[verifier::external_body]
pub struct ExValue(Value);

/// The largest plaintext that AES-GCM seals, in bytes.
pub const GCM_MAX_PLAINTEXT: u64 = 68719476736;

/// The AES-256-GCM ciphertext, tag appended, of `plaintext` under `key` and `nonce`.
pub uninterp spec fn aes_gcm_sealed_of(key: Seq<u8>, nonce: Seq<u8>, plaintext: Seq<u8>) -> Seq<u8>;

/// Relies on aes-gcm's `Aes256Gcm` (`KeyInit::new_from_slice`, `Aead::encrypt`): `None` exactly
/// where the key is not 32 bytes or the plaintext is longer than GCM allows; the ciphertext is
/// the plaintext's length plus the 16-byte tag.
#[verifier::external_body]
pub(crate) fn aes_gcm_seal(key: &[u8], nonce: &[u8], plaintext: &[u8]) -> (r: Option<Vec<u8>>)
    requires
        nonce@.len() == 12,
    ensures
        r is Some <==> (key@.len() == 32 && plaintext@.len() <= GCM_MAX_PLAINTEXT),
        r matches Some(c) ==> c@ == aes_gcm_sealed_of(key@, nonce@, plaintext@),
        r matches Some(c) ==> c@.len() == plaintext@.len() + 16,
{
    let cipher = aes_gcm::Aes256Gcm::new_from_slice(key).ok()?;
    cipher.encrypt(aes_gcm::Nonce::from_slice(nonce), plaintext).ok()
}

/// Relies on aes-gcm's `Aead::decrypt`: under the key and nonce that sealed it, a ciphertext
/// opens to its plaintext; anything else fails authentication or opens to some plaintext.
#[verifier::external_body]
pub(crate) fn aes_gcm_open(key: &[u8], nonce: &[u8], sealed: &[u8]) -> (r: Option<Vec<u8>>)
    requires
        nonce@.len() == 12,
    ensures
        forall|p: Seq<u8>|
            key@.len() == 32 && p.len() <= GCM_MAX_PLAINTEXT && sealed@ == aes_gcm_sealed_of(
                key@,
                nonce@,
                p,
            ) ==> r is Some && r.unwrap()@ == p,
{
    let cipher = aes_gcm::Aes256Gcm::new_from_slice(key).ok()?;
    cipher.decrypt(aes_gcm::Nonce::from_slice(nonce), sealed).ok()
}

/// The standard base64 text (with padding) of `b`.
pub uninterp spec fn base64_of(b: Seq<u8>) -> Seq<char>;

/// Relies on base64's `BASE64_STANDARD` engine, `Engine::encode`.
#[verifier::external_body]
pub(crate) fn base64_encode(b: &[u8]) -> (r: String)
    ensures
        r@ == base64_of(b@),
{
    base64::prelude::BASE64_STANDARD.encode(b)
}

/// The bytes that standard base64 text (with padding) `s` decodes to; `None` where it is none.
pub uninterp spec fn base64_decoded_of(s: Seq<char>) -> Option<Seq<u8>>;

/// Relies on base64's `BASE64_STANDARD` engine, `Engine::decode`: decoding what it encoded
/// gives the bytes back.
#[verifier::external_body]
pub(crate) fn base64_decode(s: &str) -> (r: Option<Vec<u8>>)
    ensures
        r is Some <==> base64_decoded_of(s@) is Some,
        r matches Some(v) ==> base64_decoded_of(s@) == Some(v@),
        forall|b: Seq<u8>| s@ == base64_of(b) ==> r is Some && r.unwrap()@ == b,
{
    base64::prelude::BASE64_STANDARD.decode(s).ok()
}

/// Relies on rand's `thread_rng` and `Rng::fill`: twelve bytes from the thread's generator.
#[verifier::external_body]
pub(crate) fn random_nonce() -> (r: Vec<u8>)
    ensures
        r@.len() == 12,
{
    let mut nonce = [0u8; 12];
    rand::Rng::fill(&mut rand::thread_rng(), &mut nonce);
    nonce.to_vec()
}

/// Relies on jsonwebtoken's `DecodingKey::from_secret`: an HMAC verification key.
#[verifier::external_body]
pub(crate) fn hmac_verifying_key(secret: &[u8]) -> DecodingKey {
    DecodingKey::from_secret(secret)
}

/// The HS256 token (default header) whose claims object holds `exp`, `iat`, `nonce` and
/// `cipher`, signed with `secret`.
pub uninterp spec fn hs256_token_of(secret: Seq<u8>, exp: nat, iat: nat, nonce: Seq<char>, cipher: Seq<char>) -> Seq<char>;

/// Relies on jsonwebtoken's `encode` with the default header (HS256) and
/// `EncodingKey::from_secret`, the claims given to it as a serde_json object of the four fields.
/// An HMAC key and a JSON object make `encode` succeed.
#[verifier::external_body]
pub(crate) fn sign_claims(claims: &Claims, secret: &[u8]) -> (r: Option<String>)
    ensures
        r is Some,
        r matches Some(t) ==> t@ == hs256_token_of(secret@, claims.exp as nat, claims.iat as nat, claims.nonce@, claims.cipher@),
{
    let mut m = serde_json::Map::new();
    m.insert("exp".to_string(), Value::from(claims.exp as u64));
    m.insert("iat".to_string(), Value::from(claims.iat as u64));
    m.insert("nonce".to_string(), Value::from(claims.nonce.clone()));
    m.insert("cipher".to_string(), Value::from(claims.cipher.clone()));
    let key = EncodingKey::from_secret(secret);
    jsonwebtoken::encode(&jsonwebtoken::Header::default(), &Value::Object(m), &key).ok()
}

/// Why a token was not accepted.
#[derive(Clone, Copy, Debug, PartialEq, Eq, Structural)]
pub enum JwtRejection {
    Expired,
    Invalid,
}

/// Relies on jsonwebtoken's `decode` with the default validation (HS256, signature, `exp`
/// present and not past): the token's claims, or why they were refused.
#[verifier::external_body]
pub(crate) fn verify_token(token: &str, key: &DecodingKey) -> Result<Value, JwtRejection> {
    match jsonwebtoken::decode::<Value>(token, key, &jsonwebtoken::Validation::default()) {
        Ok(data) => Ok(data.claims),
        Err(e) => match e.kind() {
            jsonwebtoken::errors::ErrorKind::ExpiredSignature => Err(JwtRejection::Expired),
            _ => Err(JwtRejection::Invalid),
        },
    }
}

/// Relies on serde_json's `Value::get` and `Value::as_u64`: member `name` as an unsigned integer.
#[verifier::external_body]
pub(crate) fn json_u64(v: &Value, name: &str) -> Option<u64> {
    v.get(name)?.as_u64()
}

/// Relies on serde_json's `Value::get` and `Value::as_str`: member `name` as a string.
#[verifier::external_body]
pub(crate) fn json_string(v: &Value, name: &str) -> Option<String> {
    v.get(name)?.as_str().map(|s| s.to_string())
}

} // verus!
