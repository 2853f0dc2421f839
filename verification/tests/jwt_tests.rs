use asg::error::AppError;
use asg::jwt::{decode_jwt, generate_jwt, generate_jwt_with_expiry, issue_then_decode};

fn now_secs() -> u64 {
    std::time::SystemTime::now()
        .duration_since(std::time::UNIX_EPOCH)
        .unwrap()
        .as_secs()
}

#[test]
fn token_round_trip_returns_the_subject() {
    let key = b"a jwt signing key";
    let token = generate_jwt("42", key).unwrap();
    let claims = decode_jwt(&token, key).unwrap();
    assert_eq!(claims.sub, "42");
}

#[test]
fn issued_expiry_comes_back_in_the_claims() {
    let key = b"a jwt signing key";
    let exp = now_secs() + 3600;
    let (token, claims) = issue_then_decode("7", exp, key);
    assert!(!token.is_empty());
    let claims = claims.unwrap();
    assert_eq!(claims.sub, "7");
    assert_eq!(claims.exp, exp);
}

#[test]
fn expired_token_is_rejected() {
    let key = b"a jwt signing key";
    // Past the one-hour window and past the verifier's leeway.
    let token = generate_jwt_with_expiry("42", now_secs() - 3700, key);
    assert!(matches!(decode_jwt(&token, key), Err(AppError::Unauthorized)));
}

#[test]
fn token_issued_under_another_key_is_rejected() {
    let token = generate_jwt("42", b"first key").unwrap();
    assert!(matches!(
        decode_jwt(&token, b"second key"),
        Err(AppError::Unauthorized)
    ));
}

#[test]
fn tampered_payload_is_rejected() {
    let key = b"a jwt signing key";
    let token = generate_jwt("42", key).unwrap();
    let parts: Vec<&str> = token.split('.').collect();
    assert_eq!(parts.len(), 3);
    let mut payload: Vec<u8> = parts[1].as_bytes().to_vec();
    payload[0] = if payload[0] == b'A' { b'B' } else { b'A' };
    let tampered = format!(
        "{}.{}.{}",
        parts[0],
        String::from_utf8(payload).unwrap(),
        parts[2]
    );
    assert!(matches!(decode_jwt(&tampered, key), Err(AppError::Unauthorized)));
}

#[test]
fn garbage_token_is_rejected() {
    assert!(matches!(
        decode_jwt("definitely.not.a-token", b"key"),
        Err(AppError::Unauthorized)
    ));
}
