//! Sealing session state into bearer-token claims and opening it again.
//!
//! The state is framed as four length-prefixed UTF-8 fields (cookie, hash, user,
//! password; each length a big-endian `u32`), sealed with AES-256-GCM under a fresh
//! 96-bit nonce, and carried base64-encoded in [`Claims`].

use vstd::prelude::*;
use vstd::utf8::{decode_utf8, encode_utf8, valid_utf8};
use jsonwebtoken::DecodingKey;
use crate::crypto::{
    aes_gcm_open, aes_gcm_seal, aes_gcm_sealed_of, base64_decode, base64_decoded_of,
    base64_encode, base64_of, hmac_verifying_key, hs256_token_of, json_string, json_u64,
    random_nonce, sign_claims, verify_token, JwtRejection, GCM_MAX_PLAINTEXT,
};
use crate::types::{CdAuthData, Claims};

verus! {

broadcast use vstd::utf8::encode_utf8_valid_utf8, vstd::utf8::encode_utf8_decode_utf8;

// ---------------------------------------------------------------- framing

/// `n` as four big-endian bytes.
pub open spec fn be32(n: u32) -> Seq<u8> {
    seq![(n >> 24u32) as u8, (n >> 16u32) as u8, (n >> 8u32) as u8, n as u8]
}

/// The number that four big-endian bytes spell.
pub open spec fn be32_value(b: Seq<u8>) -> u32 {
    ((b[0] as u32) << 24u32) | ((b[1] as u32) << 16u32) | ((b[2] as u32) << 8u32) | (b[3] as u32)
}

/// One field: the length of its UTF-8 bytes, then the bytes.
pub open spec fn field_spec(c: Seq<char>) -> Seq<u8> {
    be32(encode_utf8(c).len() as u32) + encode_utf8(c)
}

/// Each field of the state fits a length prefix.
pub open spec fn state_fits(s: CdAuthData) -> bool {
    &&& encode_utf8(s.cookie@).len() <= u32::MAX
    &&& encode_utf8(s.hash@).len() <= u32::MAX
    &&& encode_utf8(s.user@).len() <= u32::MAX
    &&& encode_utf8(s.password@).len() <= u32::MAX
}

/// The canonical bytes of a session state.
pub open spec fn frame_spec(s: CdAuthData) -> Seq<u8> {
    field_spec(s.cookie@) + field_spec(s.hash@) + field_spec(s.user@) + field_spec(s.password@)
}

/// The field at `pos` and the position after it.
pub open spec fn read_field_spec(b: Seq<u8>, pos: int) -> Option<(Seq<char>, int)> {
    if pos < 0 || pos + 4 > b.len() {
        None
    } else {
        let end = pos + 4 + be32_value(b.subrange(pos, pos + 4)) as int;
        if end > b.len() || !valid_utf8(b.subrange(pos + 4, end)) {
            None
        } else {
            Some((decode_utf8(b.subrange(pos + 4, end)), end))
        }
    }
}

/// The four fields that `b` frames, where it frames exactly four.
pub open spec fn unframe_spec(b: Seq<u8>) -> Option<(Seq<char>, Seq<char>, Seq<char>, Seq<char>)> {
    match read_field_spec(b, 0) {
        Some((c, p1)) => match read_field_spec(b, p1) {
            Some((h, p2)) => match read_field_spec(b, p2) {
                Some((u, p3)) => match read_field_spec(b, p3) {
                    Some((p, p4)) => if p4 == b.len() {
                        Some((c, h, u, p))
                    } else {
                        None
                    },
                    None => None,
                },
                None => None,
            },
            None => None,
        },
        None => None,
    }
}

pub open spec fn state_view(s: CdAuthData) -> (Seq<char>, Seq<char>, Seq<char>, Seq<char>) {
    (s.cookie@, s.hash@, s.user@, s.password@)
}

proof fn lemma_be32(n: u32)
    ensures
        be32_value(be32(n)) == n,
{
    let b = be32(n);
    assert(((((n >> 24u32) as u8) as u32) << 24u32) | ((((n >> 16u32) as u8) as u32) << 16u32) | ((((
    n >> 8u32) as u8) as u32) << 8u32) | ((n as u8) as u32) == n) by (bit_vector);
}

proof fn lemma_read_field(prefix: Seq<u8>, c: Seq<char>, rest: Seq<u8>)
    requires
        encode_utf8(c).len() <= u32::MAX,
    ensures
        read_field_spec(prefix + field_spec(c) + rest, prefix.len() as int) == Some(
            (c, (prefix.len() + field_spec(c).len()) as int),
        ),
{
    let b = prefix + field_spec(c) + rest;
    let e = encode_utf8(c);
    let pos = prefix.len() as int;
    lemma_be32(e.len() as u32);
    assert(b.subrange(pos, pos + 4) =~= be32(e.len() as u32));
    assert(b.subrange(pos + 4, pos + 4 + e.len()) =~= e);
}

/// Unframing the canonical bytes of a state gives the state back.
pub proof fn lemma_frame_round_trip(s: CdAuthData)
    requires
        state_fits(s),
    ensures
        unframe_spec(frame_spec(s)) == Some(state_view(s)),
{
    let f1 = field_spec(s.cookie@);
    let f2 = field_spec(s.hash@);
    let f3 = field_spec(s.user@);
    let f4 = field_spec(s.password@);
    let b = frame_spec(s);
    let empty = Seq::<u8>::empty();
    lemma_read_field(empty, s.cookie@, f2 + f3 + f4);
    assert(b =~= empty + f1 + (f2 + f3 + f4));
    lemma_read_field(f1, s.hash@, f3 + f4);
    assert(b =~= f1 + f2 + (f3 + f4));
    lemma_read_field(f1 + f2, s.user@, f4);
    assert(b =~= (f1 + f2) + f3 + f4);
    lemma_read_field(f1 + f2 + f3, s.password@, empty);
    assert(b =~= (f1 + f2 + f3) + f4 + empty);
}

/// Relies on std's `String::from_utf8`: the text that `b` encodes, `None` where `b` is no UTF-8.
#[verifier::external_body]
fn utf8_text(b: Vec<u8>) -> (r: Option<String>)
    ensures
        r is Some <==> valid_utf8(b@),
        r matches Some(t) ==> t@ == decode_utf8(b@),
{
    String::from_utf8(b).ok()
}

fn push_be32(out: &mut Vec<u8>, n: u32)
    ensures
        final(out)@ == old(out)@ + be32(n),
{
    out.push((n >> 24u32) as u8);
    out.push((n >> 16u32) as u8);
    out.push((n >> 8u32) as u8);
    out.push(n as u8);
    assert(final(out)@ =~= old(out)@ + be32(n));
}

/// Appends one field; `false`, with `out` as it was, where the text is too long for its prefix.
fn push_field(out: &mut Vec<u8>, text: &str) -> (fits: bool)
    ensures
        fits == (encode_utf8(text@).len() <= u32::MAX),
        fits ==> final(out)@ == old(out)@ + field_spec(text@),
        !fits ==> final(out)@ == old(out)@,
{
    let mut bytes = text.as_bytes_vec();
    if bytes.len() > u32::MAX as usize {
        return false;
    }
    push_be32(out, bytes.len() as u32);
    out.append(&mut bytes);
    assert(final(out)@ =~= old(out)@ + field_spec(text@));
    true
}

/// The canonical bytes of a session state; `None` where a field is too long to frame.
pub fn frame_state(s: &CdAuthData) -> (r: Option<Vec<u8>>)
    ensures
        r is Some <==> state_fits(*s),
        r matches Some(b) ==> b@ == frame_spec(*s),
{
    let mut out: Vec<u8> = Vec::new();
    if !push_field(&mut out, s.cookie.as_str()) {
        return None;
    }
    if !push_field(&mut out, s.hash.as_str()) {
        return None;
    }
    if !push_field(&mut out, s.user.as_str()) {
        return None;
    }
    if !push_field(&mut out, s.password.as_str()) {
        return None;
    }
    assert(out@ =~= frame_spec(*s));
    Some(out)
}

fn read_field(b: &Vec<u8>, pos: usize) -> (r: Option<(String, usize)>)
    ensures
        match r {
            Some((t, end)) => read_field_spec(b@, pos as int) == Some((t@, end as int)),
            None => read_field_spec(b@, pos as int) is None,
        },
{
    if pos > b.len() || b.len() - pos < 4 {
        return None;
    }
    let n: u32 = ((b[pos] as u32) << 24u32) | ((b[pos + 1] as u32) << 16u32) | ((b[pos + 2] as u32)
        << 8u32) | (b[pos + 3] as u32);
    assert(n == be32_value(b@.subrange(pos as int, pos + 4)));
    if n as usize > b.len() - pos - 4 {
        return None;
    }
    let start = pos + 4;
    let end = start + n as usize;
    let mut bytes: Vec<u8> = Vec::new();
    let mut k: usize = start;
    while k < end
        invariant
            start <= k <= end <= b@.len(),
            bytes@ == b@.subrange(start as int, k as int),
        decreases end - k,
    {
        bytes.push(b[k]);
        assert(bytes@ =~= b@.subrange(start as int, k + 1));
        k = k + 1;
    }
    match utf8_text(bytes) {
        Some(t) => Some((t, end)),
        None => None,
    }
}

/// The session state that `b` frames; `None` where it frames no state.
pub fn unframe_state(b: &Vec<u8>) -> (r: Option<CdAuthData>)
    ensures
        match r {
            Some(s) => unframe_spec(b@) == Some(state_view(s)),
            None => unframe_spec(b@) is None,
        },
{
    let (cookie, p1) = read_field(b, 0)?;
    let (hash, p2) = read_field(b, p1)?;
    let (user, p3) = read_field(b, p2)?;
    let (password, p4) = read_field(b, p3)?;
    if p4 != b.len() {
        return None;
    }
    Some(CdAuthData { cookie, hash, user, password })
}

// ---------------------------------------------------------------- sealing

/// Why a token could not be made or was not accepted.
#[derive(Clone, Copy, Debug, PartialEq, Eq, Structural)]
pub enum TokenError {
    /// The signature or the claims' shape does not check out.
    Invalid,
    /// The token's expiry has passed.
    Expired,
    /// The sealed state does not open under the server's key.
    DecryptionFailed,
    /// The opened state is not a framed session state.
    MalformedClaims,
    /// The token could not be made.
    EncodingFailed,
}

/// How long a token lasts: thirteen weeks, in seconds.
pub const TOKEN_LIFETIME_SECS: usize = 7862400;

/// Seals `plaintext` under `key` and `nonce`; the base64 of the nonce and of the sealed bytes.
pub fn encrypt(plaintext: &[u8], key: &[u8], nonce: &[u8]) -> (r: Option<(String, String)>)
    requires
        nonce@.len() == 12,
    ensures
        r is Some <==> (key@.len() == 32 && plaintext@.len() <= GCM_MAX_PLAINTEXT),
        r matches Some((n, c)) ==> n@ == base64_of(nonce@) && c@ == base64_of(
            aes_gcm_sealed_of(key@, nonce@, plaintext@),
        ),
        r is Some ==> aes_gcm_sealed_of(key@, nonce@, plaintext@).len() == plaintext@.len() + 16,
{
    let sealed = aes_gcm_seal(key, nonce, plaintext)?;
    Some((base64_encode(nonce), base64_encode(sealed.as_slice())))
}

/// Opens what [`encrypt`] sealed, given the base64 of the nonce and of the sealed bytes.
pub fn decrypt(nonce: &str, ciphertext: &str, key: &[u8]) -> (r: Result<Vec<u8>, TokenError>)
    ensures
        r matches Err(e) ==> e == TokenError::DecryptionFailed,
        base64_decoded_of(nonce@) is None ==> r is Err,
        base64_decoded_of(nonce@) matches Some(n) && n.len() != 12 ==> r is Err,
        base64_decoded_of(ciphertext@) is None ==> r is Err,
        forall|p: Seq<u8>, n: Seq<u8>|
            key@.len() == 32 && n.len() == 12 && p.len() <= GCM_MAX_PLAINTEXT && nonce@ == base64_of(n)
                && ciphertext@ == base64_of(aes_gcm_sealed_of(key@, n, p)) ==> r is Ok && r.unwrap()@ == p,
{
    let n = match base64_decode(nonce) {
        Some(n) => n,
        None => return Err(TokenError::DecryptionFailed),
    };
    if n.len() != 12 {
        return Err(TokenError::DecryptionFailed);
    }
    let sealed = match base64_decode(ciphertext) {
        Some(c) => c,
        None => return Err(TokenError::DecryptionFailed),
    };
    match aes_gcm_open(key, n.as_slice(), sealed.as_slice()) {
        Some(p) => Ok(p),
        None => Err(TokenError::DecryptionFailed),
    }
}

/// Claims that carry `state`, sealed under `key` and `nonce`, issued at `issued_at` and valid
/// for `ttl` seconds.
pub fn seal_claims(state: &CdAuthData, key: &[u8], nonce: &[u8], issued_at: usize, ttl: usize) -> (r: Result<Claims, TokenError>)
    requires
        nonce@.len() == 12,
    ensures
        r matches Err(e) ==> e == TokenError::EncodingFailed,
        r is Ok <==> (state_fits(*state) && issued_at + ttl <= usize::MAX && key@.len() == 32
            && frame_spec(*state).len() <= GCM_MAX_PLAINTEXT),
        r matches Ok(c) ==> {
            &&& c.iat == issued_at
            &&& c.exp == issued_at + ttl
            &&& c.nonce@ == base64_of(nonce@)
            &&& c.cipher@ == base64_of(aes_gcm_sealed_of(key@, nonce@, frame_spec(*state)))
        },
{
    if ttl > usize::MAX - issued_at {
        return Err(TokenError::EncodingFailed);
    }
    let plain = match frame_state(state) {
        Some(p) => p,
        None => return Err(TokenError::EncodingFailed),
    };
    match encrypt(plain.as_slice(), key, nonce) {
        Some((n, c)) => Ok(Claims { exp: issued_at + ttl, iat: issued_at, nonce: n, cipher: c }),
        None => Err(TokenError::EncodingFailed),
    }
}

/// The session state that `claims` carry, checked for expiry at `now` first.
pub fn open_claims(claims: &Claims, key: &[u8], now: usize) -> (r: Result<CdAuthData, TokenError>)
    ensures
        claims.exp < now ==> r == Err::<CdAuthData, TokenError>(TokenError::Expired),
        r is Ok ==> claims.exp >= now,
        r matches Err(e) ==> e == TokenError::Expired || e == TokenError::DecryptionFailed || e
            == TokenError::MalformedClaims,
        forall|s: CdAuthData, n: Seq<u8>|
            claims.exp >= now && key@.len() == 32 && n.len() == 12 && state_fits(s) && frame_spec(s).len()
                <= GCM_MAX_PLAINTEXT && claims.nonce@ == base64_of(n) && claims.cipher@ == base64_of(
                aes_gcm_sealed_of(key@, n, frame_spec(s)),
            ) ==> r is Ok && state_view(r.unwrap()) == state_view(s),
{
    if claims.exp < now {
        return Err(TokenError::Expired);
    }
    let plain = decrypt(claims.nonce.as_str(), claims.cipher.as_str(), key)?;
    let r = match unframe_state(&plain) {
        Some(s) => Ok(s),
        None => Err(TokenError::MalformedClaims),
    };
    proof {
        assert forall|s: CdAuthData, n: Seq<u8>|
            claims.exp >= now && key@.len() == 32 && n.len() == 12 && state_fits(s) && frame_spec(s).len()
                <= GCM_MAX_PLAINTEXT && claims.nonce@ == base64_of(n) && claims.cipher@ == base64_of(
                aes_gcm_sealed_of(key@, n, frame_spec(s)),
            ) implies r is Ok && state_view(r.unwrap()) == state_view(s) by {
            lemma_frame_round_trip(s);
        }
    }
    r
}

// ---------------------------------------------------------------- tokens

/// The keys a deployment seals and signs tokens with, made once at startup.
pub struct TokenKeys {
    aes_key: Vec<u8>,
    jwt_secret: Vec<u8>,
    verifying: DecodingKey,
}

impl TokenKeys {
    /// The AES-256 key.
    pub closed spec fn aes_key_spec(&self) -> Seq<u8> {
        self.aes_key@
    }

    /// The HMAC secret tokens are signed with.
    pub closed spec fn jwt_secret_spec(&self) -> Seq<u8> {
        self.jwt_secret@
    }

    /// Keys from the deployment's secrets: the first 32 bytes of `aes_secret` seal, `jwt_secret`
    /// signs; `None` where `aes_secret` is shorter than 32 bytes.
    pub fn new(aes_secret: &[u8], jwt_secret: &[u8]) -> (r: Option<TokenKeys>)
        ensures
            r is Some <==> aes_secret@.len() >= 32,
            r matches Some(k) ==> k.aes_key_spec() == aes_secret@.subrange(0, 32)
                && k.aes_key_spec().len() == 32 && k.jwt_secret_spec() == jwt_secret@,
    {
        if aes_secret.len() < 32 {
            return None;
        }
        let mut aes_key: Vec<u8> = Vec::new();
        let mut i: usize = 0;
        while i < 32
            invariant
                aes_secret@.len() >= 32,
                i <= 32,
                aes_key@ == aes_secret@.subrange(0, i as int),
            decreases 32 - i,
        {
            aes_key.push(aes_secret[i]);
            assert(aes_key@ =~= aes_secret@.subrange(0, i + 1));
            i = i + 1;
        }
        let mut secret: Vec<u8> = Vec::new();
        let mut j: usize = 0;
        while j < jwt_secret.len()
            invariant
                j <= jwt_secret@.len(),
                secret@ == jwt_secret@.subrange(0, j as int),
            decreases jwt_secret@.len() - j,
        {
            secret.push(jwt_secret[j]);
            assert(secret@ =~= jwt_secret@.subrange(0, j + 1));
            j = j + 1;
        }
        assert(secret@ =~= jwt_secret@);
        Some(TokenKeys { aes_key, jwt_secret: secret, verifying: hmac_verifying_key(jwt_secret) })
    }
}

/// `c` seals `state` under `key` with nonce `n`, issued at `now` for the token lifetime.
pub open spec fn seals(c: Claims, state: CdAuthData, key: Seq<u8>, n: Seq<u8>, now: usize) -> bool {
    &&& n.len() == 12
    &&& c.iat == now
    &&& c.exp == now + TOKEN_LIFETIME_SECS
    &&& c.nonce@ == base64_of(n)
    &&& c.cipher@ == base64_of(aes_gcm_sealed_of(key, n, frame_spec(state)))
}

/// A signed bearer token that seals `cd_auth_data`, issued at `now` (seconds since the epoch)
/// under a fresh random nonce.
pub fn encode_jwt(cd_auth_data: &CdAuthData, keys: &TokenKeys, now: usize) -> (r: Result<String, TokenError>)
    ensures
        r matches Err(e) ==> e == TokenError::EncodingFailed,
        r is Ok <==> (state_fits(*cd_auth_data) && now + TOKEN_LIFETIME_SECS <= usize::MAX
            && keys.aes_key_spec().len() == 32 && frame_spec(*cd_auth_data).len() <= GCM_MAX_PLAINTEXT),
        r matches Ok(t) ==> exists|c: Claims, n: Seq<u8>|
            seals(c, *cd_auth_data, keys.aes_key_spec(), n, now) && t@ == hs256_token_of(
                keys.jwt_secret_spec(),
                c.exp as nat,
                c.iat as nat,
                c.nonce@,
                c.cipher@,
            ),
{
    let nonce = random_nonce();
    let claims = seal_claims(cd_auth_data, keys.aes_key.as_slice(), nonce.as_slice(), now, TOKEN_LIFETIME_SECS)?;
    match sign_claims(&claims, keys.jwt_secret.as_slice()) {
        Some(t) => {
            assert(seals(claims, *cd_auth_data, keys.aes_key_spec(), nonce@, now));
            Ok(t)
        },
        None => Err(TokenError::EncodingFailed),
    }
}

/// Claims from the members of a token's claims object: `Invalid` where one is missing or a
/// time does not fit a `usize`.
pub fn claims_from_members(exp: Option<u64>, iat: Option<u64>, nonce: Option<String>, cipher: Option<String>) -> (r: Result<Claims, TokenError>)
    ensures
        r is Ok <==> (exp is Some && exp.unwrap() <= usize::MAX && iat is Some && iat.unwrap()
            <= usize::MAX && nonce is Some && cipher is Some),
        r matches Err(e) ==> e == TokenError::Invalid,
        r matches Ok(c) ==> exp == Some(c.exp as u64) && iat == Some(c.iat as u64) && nonce
            == Some(c.nonce) && cipher == Some(c.cipher),
{
    match (exp, iat, nonce, cipher) {
        (Some(exp), Some(iat), Some(nonce), Some(cipher)) => {
            if exp > usize::MAX as u64 || iat > usize::MAX as u64 {
                return Err(TokenError::Invalid);
            }
            Ok(Claims { exp: exp as usize, iat: iat as usize, nonce, cipher })
        },
        _ => Err(TokenError::Invalid),
    }
}

/// The claims of a token whose signature checks out and which has not expired.
pub fn decode_jwt(jwt: &str, keys: &TokenKeys) -> (r: Result<Claims, TokenError>)
    ensures
        r matches Err(e) ==> e == TokenError::Invalid || e == TokenError::Expired,
{
    let value = match verify_token(jwt, &keys.verifying) {
        Ok(v) => v,
        Err(JwtRejection::Expired) => return Err(TokenError::Expired),
        Err(JwtRejection::Invalid) => return Err(TokenError::Invalid),
    };
    claims_from_members(
        json_u64(&value, "exp"),
        json_u64(&value, "iat"),
        json_string(&value, "nonce"),
        json_string(&value, "cipher"),
    )
}

/// The session state that a bearer token seals, checked at `now` (seconds since the epoch).
pub fn decode_session(jwt: &str, keys: &TokenKeys, now: usize) -> (r: Result<CdAuthData, TokenError>)
    ensures
        r matches Err(e) ==> e != TokenError::EncodingFailed,
{
    let claims = decode_jwt(jwt, keys)?;
    open_claims(&claims, keys.aes_key.as_slice(), now)
}

} // verus!
