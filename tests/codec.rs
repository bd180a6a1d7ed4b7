use campus_api::codec::{
    claims_from_members, decode_jwt, decode_session, decrypt, encode_jwt, encrypt, frame_state,
    open_claims, seal_claims, unframe_state, TokenError, TokenKeys, TOKEN_LIFETIME_SECS,
};
use base64::prelude::BASE64_STANDARD;
use base64::Engine;
use campus_api::types::{CdAuthData, Claims};

fn state() -> CdAuthData {
    CdAuthData {
        cookie: "{\"raw_cookie\":\"MYSAPSSO2=abc; Domain=campus-dual.de\"}".to_string(),
        hash: "0123456789abcdef".to_string(),
        user: "5001724".to_string(),
        password: "pässwörd with spaces".to_string(),
    }
}

const AES_KEY: &[u8] = b"0123456789abcdef0123456789abcdef";
const NONCE: &[u8] = b"twelve bytes";

fn keys() -> TokenKeys {
    TokenKeys::new(b"0123456789abcdef0123456789abcdef-extra", b"jwt signing key for tests").unwrap()
}

#[test]
fn frame_round_trip() {
    let s = state();
    let bytes = frame_state(&s).unwrap();
    assert_eq!(&bytes[0..4], &[0, 0, 0, s.cookie.len() as u8]);
    assert_eq!(unframe_state(&bytes), Some(s));
}

#[test]
fn unframe_rejects_trailing_and_short_input() {
    let mut bytes = frame_state(&state()).unwrap();
    bytes.push(0);
    assert_eq!(unframe_state(&bytes), None);
    assert_eq!(unframe_state(&vec![0, 0, 0, 9, b'a']), None);
    assert_eq!(unframe_state(&vec![]), None);
}

#[test]
fn encrypt_then_decrypt() {
    let (nonce, cipher) = encrypt(b"hello world", AES_KEY, NONCE).unwrap();
    assert_eq!(nonce, "dHdlbHZlIGJ5dGVz");
    assert_ne!(cipher, "aGVsbG8gd29ybGQ=");
    assert_eq!(decrypt(&nonce, &cipher, AES_KEY), Ok(b"hello world".to_vec()));
}

#[test]
fn sealed_claims_round_trip() {
    let s = state();
    let claims = seal_claims(&s, AES_KEY, NONCE, 1_700_000_000, TOKEN_LIFETIME_SECS).unwrap();
    assert_eq!(claims.iat, 1_700_000_000);
    assert_eq!(claims.exp, 1_700_000_000 + 7_862_400);
    assert_eq!(open_claims(&claims, AES_KEY, 1_700_000_100), Ok(s));
}

#[test]
fn tampered_cipher_is_refused() {
    let claims = seal_claims(&state(), AES_KEY, NONCE, 1_000, 100).unwrap();
    let mut raw = decode_b64(&claims.cipher);
    for bit in [0usize, 7, 100, raw.len() * 8 - 1] {
        raw[bit / 8] ^= 1 << (bit % 8);
        let tampered = Claims { cipher: encode_b64(&raw), ..claims.clone() };
        assert_eq!(open_claims(&tampered, AES_KEY, 1_000), Err(TokenError::DecryptionFailed));
        raw[bit / 8] ^= 1 << (bit % 8);
    }
    let other_key = b"fedcba9876543210fedcba9876543210";
    assert_eq!(open_claims(&claims, other_key, 1_000), Err(TokenError::DecryptionFailed));
}

#[test]
fn expired_claims_fail_as_expired() {
    let claims = seal_claims(&state(), AES_KEY, NONCE, 1_000, 100).unwrap();
    assert_eq!(open_claims(&claims, AES_KEY, 1_101), Err(TokenError::Expired));
    let garbage = Claims { exp: 5, iat: 0, nonce: "!".to_string(), cipher: "!".to_string() };
    assert_eq!(open_claims(&garbage, AES_KEY, 6), Err(TokenError::Expired));
    assert_eq!(open_claims(&garbage, AES_KEY, 5), Err(TokenError::DecryptionFailed));
}

#[test]
fn wrong_plaintext_shape_is_malformed() {
    let (nonce, cipher) = encrypt(b"not a frame", AES_KEY, NONCE).unwrap();
    let claims = Claims { exp: 10, iat: 0, nonce, cipher };
    assert_eq!(open_claims(&claims, AES_KEY, 1), Err(TokenError::MalformedClaims));
}

#[test]
fn claims_from_token_members() {
    let c = claims_from_members(Some(20), Some(3), Some("n".to_string()), Some("c".to_string())).unwrap();
    assert_eq!(c, Claims { exp: 20, iat: 3, nonce: "n".to_string(), cipher: "c".to_string() });
    assert_eq!(claims_from_members(None, Some(3), Some("n".to_string()), Some("c".to_string())), Err(TokenError::Invalid));
    assert_eq!(claims_from_members(Some(1), Some(3), None, Some("c".to_string())), Err(TokenError::Invalid));
}

#[test]
fn encrypt_needs_a_full_key_and_adds_the_tag() {
    assert_eq!(encrypt(b"abc", b"short key", NONCE), None);
    let (_, cipher) = encrypt(b"abc", AES_KEY, NONCE).unwrap();
    assert_eq!(decode_b64(&cipher).len(), 3 + 16);
}

#[test]
fn malformed_nonce_is_refused() {
    let (nonce, cipher) = encrypt(b"abc", AES_KEY, NONCE).unwrap();
    assert_eq!(decrypt("***", &cipher, AES_KEY), Err(TokenError::DecryptionFailed));
    assert_eq!(decrypt("AAAA", &cipher, AES_KEY), Err(TokenError::DecryptionFailed));
    assert_eq!(decrypt(&nonce, "***", AES_KEY), Err(TokenError::DecryptionFailed));
}

#[test]
fn token_round_trip() {
    let k = keys();
    let real_now = std::time::SystemTime::now()
        .duration_since(std::time::UNIX_EPOCH)
        .unwrap()
        .as_secs() as usize;
    let token = encode_jwt(&state(), &k, real_now).unwrap();
    assert_eq!(token.split('.').count(), 3);
    let claims = decode_jwt(&token, &k).unwrap();
    assert_eq!(claims.iat, real_now);
    assert_eq!(claims.exp, real_now + TOKEN_LIFETIME_SECS);
    assert_eq!(decode_session(&token, &k, real_now + 10), Ok(state()));
}

#[test]
fn token_with_bad_signature_is_invalid() {
    let k = keys();
    let real_now = std::time::SystemTime::now()
        .duration_since(std::time::UNIX_EPOCH)
        .unwrap()
        .as_secs() as usize;
    let token = encode_jwt(&state(), &k, real_now).unwrap();
    let mut parts: Vec<String> = token.split('.').map(|p| p.to_string()).collect();
    let sig = parts[2].clone();
    let flipped = if sig.starts_with('A') { "B" } else { "A" };
    parts[2] = format!("{}{}", flipped, &sig[1..]);
    let tampered = parts.join(".");
    assert_eq!(decode_session(&tampered, &k, real_now), Err(TokenError::Invalid));
    let other = TokenKeys::new(AES_KEY, b"another secret").unwrap();
    assert_eq!(decode_session(&token, &other, real_now), Err(TokenError::Invalid));
}

#[test]
fn token_expired_past_its_lifetime() {
    let k = keys();
    let token = encode_jwt(&state(), &k, 1_000_000).unwrap();
    assert_eq!(decode_session(&token, &k, 1_000_001), Err(TokenError::Expired));
}

#[test]
fn short_aes_secret_is_refused() {
    assert!(TokenKeys::new(b"too short", b"s").is_none());
    assert!(TokenKeys::new(AES_KEY, b"s").is_some());
}

fn encode_b64(b: &[u8]) -> String {
    BASE64_STANDARD.encode(b)
}

fn decode_b64(s: &str) -> Vec<u8> {
    BASE64_STANDARD.decode(s).unwrap()
}

#[test]
fn expiry_past_the_clock_cannot_be_sealed() {
    assert_eq!(seal_claims(&state(), AES_KEY, NONCE, usize::MAX, 1), Err(TokenError::EncodingFailed));
    assert_eq!(encode_jwt(&state(), &keys(), usize::MAX), Err(TokenError::EncodingFailed));
}
