use vstd::prelude::*;

verus! {

/// The error taxonomy of the service.
///
/// Domain errors (`UserNotFound`, `InvalidCredentials`) are mapped to 4xx
/// responses at the HTTP boundary; everything else is surfaced as a generic
/// 5xx with no internal detail leaked.
#[derive(Debug)]
pub enum AppError {
    /// The password-hashing step failed: invalid parameters, or the secret
    /// material could not be decoded.
    HashError,
    /// Any failure of the relational store.
    DatabaseError,
    /// A lookup by id matched zero rows.
    NotFound,
    /// Token signing failed.
    TokenError,
    /// No account is stored under the given email.
    UserNotFound(String),
    /// The password did not match, or the account does not exist.
    InvalidCredentials,
    /// A stored password hash is malformed (distinct from "does not match").
    InvalidPasswordHash,
    /// Signature mismatch, malformed token, or expired token.
    Unauthorized,
    /// `APP_KEY` or `DATABASE_URL` is missing or malformed.
    ConfigError,
}

pub type AppResult<T> = Result<T, AppError>;

impl AppError {
    /// A safe, human-readable description; never carries internal detail
    /// beyond what the variant itself holds.
    pub fn message(&self) -> (r: String)
        ensures
            r@ == match self {
                AppError::HashError => "Hashing error"@,
                AppError::DatabaseError => "Database error"@,
                AppError::NotFound => "Not found"@,
                AppError::TokenError => "Token error"@,
                AppError::UserNotFound(email) => "User not found: "@ + email@,
                AppError::InvalidCredentials => "Invalid credentials"@,
                AppError::InvalidPasswordHash => "Invalid password hash"@,
                AppError::Unauthorized => "Unauthorized"@,
                AppError::ConfigError => "Configuration error"@,
            },
    {
        match self {
            AppError::HashError => String::from_str("Hashing error"),
            AppError::DatabaseError => String::from_str("Database error"),
            AppError::NotFound => String::from_str("Not found"),
            AppError::TokenError => String::from_str("Token error"),
            AppError::UserNotFound(email) => String::from_str("User not found: ").concat(email.as_str()),
            AppError::InvalidCredentials => String::from_str("Invalid credentials"),
            AppError::InvalidPasswordHash => String::from_str("Invalid password hash"),
            AppError::Unauthorized => String::from_str("Unauthorized"),
            AppError::ConfigError => String::from_str("Configuration error"),
        }
    }
}

} // verus!
