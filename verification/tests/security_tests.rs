use asg::error::AppError;
use asg::security::{hash_password, verify_password};

fn demo_app_key() -> Vec<u8> {
    // The configured key material is base64 text; it decodes to 16 bytes.
    base64::Engine::encode(&base64::engine::general_purpose::STANDARD, b"0123456789abcdef")
        .into_bytes()
}

#[test]
fn hash_then_verify_accepts_the_password() {
    let key = demo_app_key();
    let hash = hash_password("s3cret-Pass!", &key).unwrap();
    assert_eq!(verify_password("s3cret-Pass!", &hash).unwrap(), true);
}

#[test]
fn hash_then_verify_rejects_another_password() {
    let key = demo_app_key();
    let hash = hash_password("s3cret-Pass!", &key).unwrap();
    assert_eq!(verify_password("s3cret-Pass?", &hash).unwrap(), false);
    assert_eq!(verify_password("", &hash).unwrap(), false);
}

#[test]
fn hashing_twice_gives_different_strings_that_both_verify() {
    let key = demo_app_key();
    let first = hash_password("s3cret-Pass!", &key).unwrap();
    let second = hash_password("s3cret-Pass!", &key).unwrap();
    assert_ne!(first, second);
    assert_eq!(verify_password("s3cret-Pass!", &first).unwrap(), true);
    assert_eq!(verify_password("s3cret-Pass!", &second).unwrap(), true);
}

#[test]
fn malformed_stored_hash_is_an_error_not_a_mismatch() {
    let result = verify_password("whatever", "not a phc string");
    assert!(matches!(result, Err(AppError::InvalidPasswordHash)));
}

#[test]
fn undecodable_key_material_fails_the_hash() {
    let result = hash_password("s3cret-Pass!", b"!!! not base64 !!!");
    assert!(matches!(result, Err(AppError::HashError)));
}

#[test]
fn oversized_key_material_fails_the_hash() {
    // 27 decoded bytes leave no room for the extended salt.
    let key = base64::Engine::encode(
        &base64::engine::general_purpose::STANDARD,
        b"0123456789abcdef0123456789a",
    )
    .into_bytes();
    let result = hash_password("s3cret-Pass!", &key);
    assert!(matches!(result, Err(AppError::HashError)));
}

#[test]
fn stored_hash_is_a_phc_string_not_the_password() {
    let key = demo_app_key();
    let hash = hash_password("s3cret-Pass!", &key).unwrap();
    assert!(hash.starts_with("$argon2"));
    assert!(!hash.contains("s3cret-Pass!"));
}
