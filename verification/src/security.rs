use vstd::prelude::*;

use crate::error::{AppError, AppResult};

verus! {

// ---------------------------------------------------------------------------
// Names for the results of the outside password-hashing primitives.
// ---------------------------------------------------------------------------

/// What `base64::engine::general_purpose::STANDARD.decode` returns on the
/// given input: `Some` of the decoded bytes when the input is valid padded
/// standard base64, `None` otherwise.
pub uninterp spec fn b64_decode_of(s: Seq<u8>) -> Option<Seq<u8>>;

/// What `base64::engine::general_purpose::STANDARD_NO_PAD.encode` returns on
/// the given bytes.
pub uninterp spec fn b64_nopad_of(b: Seq<u8>) -> Seq<char>;

/// The PHC string that `argon2::Argon2::default().hash_password` produces for
/// the given password and B64 salt string. The output depends on the password
/// and the salt alone (default algorithm, version and cost parameters).
pub uninterp spec fn argon2_phc(password: Seq<char>, salt_b64: Seq<char>) -> Seq<char>;

/// Whether `argon2::Argon2::default().verify_password` accepts the given
/// password against the given (parseable) PHC string: it recomputes the hash
/// with the salt and parameters recorded in the string and compares.
pub uninterp spec fn argon2_match(password: Seq<char>, phc: Seq<char>) -> bool;

/// Whether `argon2::password_hash::PasswordHash::new` parses the given string
/// as a well-formed PHC-format password hash.
pub uninterp spec fn phc_parses(phc: Seq<char>) -> bool;

// ---------------------------------------------------------------------------
// Trusted wrappers around the outside calls.
// ---------------------------------------------------------------------------

/// Relies on `base64::Engine::decode` with the standard (padded) alphabet:
/// decodes valid base64 input and rejects anything else.
#[verifier::external_body]
pub(crate) fn decode_base64(input: &[u8]) -> (r: Option<Vec<u8>>)
    ensures
        match r {
            Some(v) => b64_decode_of(input@) == Some(v@),
            None => b64_decode_of(input@) is None,
        },
{
    base64::Engine::decode(&base64::engine::general_purpose::STANDARD, input).ok()
}

/// Relies on `base64::Engine::encode` with the standard no-padding alphabet:
/// the output has exactly ceil(4n/3) characters for n input bytes.
#[verifier::external_body]
fn encode_base64_nopad(input: &[u8]) -> (r: String)
    ensures
        r@ == b64_nopad_of(input@),
        r@.len() == (input@.len() * 4 + 2) / 3,
{
    base64::Engine::encode(&base64::engine::general_purpose::STANDARD_NO_PAD, input)
}

/// Relies on `argon2::password_hash::SaltString::generate` over
/// `rand::thread_rng`: a fresh random salt of 16 bytes, returned here as its
/// 22-character B64 text. The result is random; nothing relates two calls.
#[verifier::external_body]
fn generate_salt_bytes() -> (r: Vec<u8>)
    ensures
        r@.len() == 22,
{
    let salt = argon2::password_hash::SaltString::generate(&mut rand::thread_rng());
    salt.as_str().as_bytes().to_vec()
}

/// Relies on `argon2::password_hash::SaltString::from_b64` (accepts strings of
/// 4 to 64 B64 characters) and `argon2::Argon2::hash_password` (requires the
/// decoded salt to be 8 to 64 bytes and the password at most 2^32 - 1 bytes);
/// on success the PHC string it produces parses back and verifies against the
/// same password.
#[verifier::external_body]
fn argon2_hash_with_salt(password: &str, salt_b64: &str) -> (r: Result<String, ()>)
    ensures
        (match r {
            Ok(h) => {
                &&& h@ == argon2_phc(password@, salt_b64@)
                &&& argon2_match(password@, h@)
                &&& phc_parses(h@)
            },
            Err(_) => true,
        }),
        (password@.len() <= 0x3fffffff && 4 <= salt_b64@.len() <= 64 && (exists|raw: Seq<u8>|
            salt_b64@ == #[trigger] b64_nopad_of(raw) && raw.len() >= 8)) ==> r is Ok,
{
    let salt = match argon2::password_hash::SaltString::from_b64(salt_b64) {
        Ok(s) => s,
        Err(_) => return Err(()),
    };
    let hasher = argon2::Argon2::default();
    match argon2::PasswordHasher::hash_password(&hasher, password.as_bytes(), &salt) {
        Ok(h) => Ok(h.to_string()),
        Err(_) => Err(()),
    }
}

/// Relies on `argon2::password_hash::PasswordHash::new` (parses the PHC
/// string) and `argon2::Argon2::verify_password` (recomputes and compares in
/// constant time).
#[verifier::external_body]
fn argon2_verify_phc(password: &str, stored: &str) -> (r: Result<bool, ()>)
    ensures
        match r {
            Ok(b) => phc_parses(stored@) && b == argon2_match(password@, stored@),
            Err(_) => !phc_parses(stored@),
        },
{
    match argon2::password_hash::PasswordHash::new(stored) {
        Ok(parsed) => {
            let hasher = argon2::Argon2::default();
            Ok(argon2::PasswordVerifier::verify_password(&hasher, password.as_bytes(), &parsed).is_ok())
        },
        Err(_) => Err(()),
    }
}

// ---------------------------------------------------------------------------
// The verified hasher.
// ---------------------------------------------------------------------------

/// The extended salt is the decoded application key followed by the 22 salt
/// characters; its B64 text must fit a salt field of at most 64 characters.
pub open spec fn key_fits_salt(decoded_key_len: nat) -> bool {
    ((decoded_key_len + 22) * 4 + 2) / 3 <= 64
}

/// Derives a per-call random salt, extends it with the decoded application
/// key, and hashes the password over that extended salt. Returns the encoded
/// PHC string that is persisted. Two calls on the same inputs return
/// different strings (the salt is random), but every returned string
/// verifies against the same password.
pub fn hash_password(password: &str, app_key: &[u8]) -> (r: AppResult<String>)
    ensures
        match r {
            Ok(h) => {
                &&& b64_decode_of(app_key@) is Some
                &&& key_fits_salt(b64_decode_of(app_key@).unwrap().len())
                &&& password@.len() <= 0x3fffffff
                &&& argon2_match(password@, h@)
                &&& phc_parses(h@)
                &&& exists|salt: Seq<u8>|
                    salt.len() == 22 && h@ == argon2_phc(
                        password@,
                        #[trigger] b64_nopad_of(b64_decode_of(app_key@).unwrap() + salt),
                    )
            },
            Err(e) => {
                &&& e is HashError
                &&& (b64_decode_of(app_key@) is None
                    || !key_fits_salt(b64_decode_of(app_key@).unwrap().len())
                    || password@.len() > 0x3fffffff)
            },
        },
{
    let decoded_key = match decode_base64(app_key) {
        Some(k) => k,
        None => return Err(AppError::HashError),
    };
    if decoded_key.len() > 26 {
        assert(!key_fits_salt(decoded_key@.len()));
        return Err(AppError::HashError);
    }
    if password.unicode_len() > 0x3fffffff {
        return Err(AppError::HashError);
    }
    let salt_bytes = generate_salt_bytes();

    let mut extended_salt: Vec<u8> = Vec::new();
    extended_salt.extend_from_slice(decoded_key.as_slice());
    extended_salt.extend_from_slice(salt_bytes.as_slice());
    assert(extended_salt@.len() == decoded_key@.len() + 22);

    let salt_b64 = encode_base64_nopad(extended_salt.as_slice());
    assert(key_fits_salt(decoded_key@.len()));
    assert(4 <= salt_b64@.len() <= 64);

    match argon2_hash_with_salt(password, salt_b64.as_str()) {
        Ok(h) => {
            proof {
                assert(extended_salt@ =~= decoded_key@ + salt_bytes@);
                assert(h@ == argon2_phc(
                    password@,
                    b64_nopad_of(b64_decode_of(app_key@).unwrap() + salt_bytes@),
                ));
            }
            Ok(h)
        },
        Err(_) => Err(AppError::HashError),
    }
}

/// Parses the stored PHC string and checks the provided password against it.
/// A malformed stored string is an error, distinct from a clean mismatch,
/// which is `Ok(false)`.
pub fn verify_password(provided_password: &str, password_hash: &str) -> (r: AppResult<bool>)
    ensures
        match r {
            Ok(b) => phc_parses(password_hash@) && b == argon2_match(
                provided_password@,
                password_hash@,
            ),
            Err(e) => e is InvalidPasswordHash && !phc_parses(password_hash@),
        },
{
    match argon2_verify_phc(provided_password, password_hash) {
        Ok(b) => Ok(b),
        Err(_) => Err(AppError::InvalidPasswordHash),
    }
}


/// Hash round trip: whatever salt the hasher drew, the stored string it
/// returns verifies against the very password it was made from.
pub fn hash_then_verify(password: &str, app_key: &[u8]) -> (r: AppResult<bool>)
    ensures
        match r {
            Ok(b) => b == true,
            Err(e) => {
                &&& e is HashError
                &&& (b64_decode_of(app_key@) is None
                    || !key_fits_salt(b64_decode_of(app_key@).unwrap().len())
                    || password@.len() > 0x3fffffff)
            },
        },
{
    let stored = match hash_password(password, app_key) {
        Ok(h) => h,
        Err(_) => {
            return Err(AppError::HashError);
        },
    };
    match verify_password(password, stored.as_str()) {
        Ok(b) => Ok(b),
        Err(_) => {
            proof {
                assert(false);
            }
            unreached()
        },
    }
}

} // verus!
