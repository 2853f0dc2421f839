use vstd::prelude::*;

use crate::error::{AppError, AppResult};

verus! {

/// The signed claims: a subject identifier and an absolute expiration in
/// epoch seconds. The validity window is exactly one hour from issuance.
pub struct Claims {
    pub sub: String,
    pub exp: u64,
}

/// Seconds a freshly issued token stays valid.
pub const TOKEN_LIFETIME_SECS: u64 = 3600;

// ---------------------------------------------------------------------------
// Names for the results of the outside token primitives.
// ---------------------------------------------------------------------------

/// The compact three-part token that `jsonwebtoken::encode` produces for a
/// default (HS256) header and the claims `{sub, exp}`, signed with the given
/// secret. The output depends on the three arguments alone.
pub uninterp spec fn jwt_of(sub: Seq<char>, exp: u64, key: Seq<u8>) -> Seq<char>;

// ---------------------------------------------------------------------------
// Trusted wrappers around the outside calls.
// ---------------------------------------------------------------------------

/// Relies on `jsonwebtoken::encode` with `Header::default()` (HS256) and
/// `EncodingKey::from_secret`: HMAC signing of an HS256 header never fails,
/// and the output embeds the claims.
#[verifier::external_body]
fn jwt_encode(sub: &str, exp: u64, key: &[u8]) -> (r: Result<String, ()>)
    ensures
        r is Ok,
        match r {
            Ok(t) => t@ == jwt_of(sub@, exp, key@),
            Err(_) => true,
        },
{
    let mut claims = serde_json::Map::new();
    claims.insert(String::from("sub"), serde_json::Value::String(sub.to_string()));
    claims.insert(String::from("exp"), serde_json::Value::Number(serde_json::Number::from(exp)));
    jsonwebtoken::encode(
        &jsonwebtoken::Header::default(),
        &serde_json::Value::Object(claims),
        &jsonwebtoken::EncodingKey::from_secret(key),
    ).map_err(|_| ())
}

/// Relies on `jsonwebtoken::decode` with `Validation::default()` (HS256,
/// expiration checked against the clock with its default leeway) and
/// `DecodingKey::from_secret`. Success depends on the clock, so no success is
/// promised; but the claims handed back are read from the token's payload,
/// so on a token built by `jsonwebtoken::encode` they are the encoded ones.
#[verifier::external_body]
fn jwt_decode(token: &str, key: &[u8]) -> (r: Result<(String, u64), ()>)
    ensures
        match r {
            Ok(c) => forall|s: Seq<char>, e: u64|
                token@ == #[trigger] jwt_of(s, e, key@) ==> c.0@ == s && c.1 == e,
            Err(_) => true,
        },
{
    let key = jsonwebtoken::DecodingKey::from_secret(key);
    let checks = jsonwebtoken::Validation::default();
    match jsonwebtoken::decode::<serde_json::Value>(token, &key, &checks) {
        Ok(d) => match (d.claims.get("sub"), d.claims.get("exp")) {
            (Some(serde_json::Value::String(s)), Some(serde_json::Value::Number(n))) => match n
                .as_u64() {
                Some(e) => Ok((s.clone(), e)),
                None => Err(()),
            },
            _ => Err(()),
        },
        Err(_) => Err(()),
    }
}

/// Relies on `std::time::SystemTime::now` and `duration_since(UNIX_EPOCH)`:
/// the current time in epoch seconds. Nothing is promised of the value.
#[verifier::external_body]
fn now_epoch_secs() -> (r: u64)
{
    match std::time::SystemTime::now().duration_since(std::time::UNIX_EPOCH) {
        Ok(d) => d.as_secs(),
        Err(_) => 0,
    }
}

// ---------------------------------------------------------------------------
// The verified issuer.
// ---------------------------------------------------------------------------

/// Signs claims `{sub: user_id, exp}` for a caller-chosen absolute expiry.
pub fn generate_jwt_with_expiry(user_id: &str, exp: u64, app_key: &[u8]) -> (t: String)
    ensures
        t@ == jwt_of(user_id@, exp, app_key@),
{
    match jwt_encode(user_id, exp, app_key) {
        Ok(t) => t,
        Err(_) => {
            proof {
                assert(false);
            }
            unreached()
        },
    }
}

/// Issues a bearer token for the subject, valid for exactly one hour from
/// now. The token is the signed encoding of `{sub: user_id, exp: now + 3600}`.
pub fn generate_jwt(user_id: &str, app_key: &[u8]) -> (r: AppResult<String>)
    ensures
        match r {
            Ok(t) => exists|e: u64| t@ == #[trigger] jwt_of(user_id@, e, app_key@),
            Err(e) => e is TokenError,
        },
{
    let now = now_epoch_secs();
    if now > u64::MAX - TOKEN_LIFETIME_SECS {
        return Err(AppError::TokenError);
    }
    let exp = now + TOKEN_LIFETIME_SECS;
    Ok(generate_jwt_with_expiry(user_id, exp, app_key))
}

/// Validates signature and expiration; any signature mismatch, malformed
/// token, or expiry is the single `Unauthorized` error, so callers cannot
/// distinguish the cases. On success, if the token was produced by signing
/// claims with this key, the returned claims are exactly the signed ones.
pub fn decode_jwt(token: &str, secret: &[u8]) -> (r: AppResult<Claims>)
    ensures
        match r {
            Ok(c) => forall|s: Seq<char>, e: u64|
                token@ == #[trigger] jwt_of(s, e, secret@) ==> c.sub@ == s && c.exp == e,
            Err(e) => e is Unauthorized,
        },
{
    match jwt_decode(token, secret) {
        Ok((sub, exp)) => Ok(Claims { sub, exp }),
        Err(_) => Err(AppError::Unauthorized),
    }
}

/// Token round trip: a token issued for a subject, when it verifies at all,
/// verifies to that same subject and to the expiry it was issued with.
pub fn issue_then_decode(user_id: &str, exp: u64, app_key: &[u8]) -> (r: (String, AppResult<Claims>))
    ensures
        r.0@ == jwt_of(user_id@, exp, app_key@),
        match r.1 {
            Ok(c) => c.sub@ == user_id@ && c.exp == exp,
            Err(e) => e is Unauthorized,
        },
{
    let token = generate_jwt_with_expiry(user_id, exp, app_key);
    let claims = decode_jwt(token.as_str(), app_key);
    (token, claims)
}

} // verus!
