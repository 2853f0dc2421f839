use vstd::prelude::*;

use crate::digits::{dec_signed_digits, i32_to_string};
use crate::error::AppError;
use crate::jwt::jwt_of;
use crate::model::User;
use crate::security::{argon2_match, phc_parses, verify_password};
use crate::store::{Table, ValueView};

verus! {

pub struct LoginRequest {
    pub email: String,
    pub password: String,
}

pub enum LoginResponse {
    Success { token: String },
    Error { error: String },
}

impl LoginResponse {
    pub fn success(token: &str) -> (r: Self)
        ensures
            r matches LoginResponse::Success { token: t } && t@ == token@,
    {
        LoginResponse::Success { token: String::from_str(token) }
    }

    pub fn error(message: &str) -> (r: Self)
        ensures
            r matches LoginResponse::Error { error: e } && e@ == message@,
    {
        LoginResponse::Error { error: String::from_str(message) }
    }
}

/// What the credential lookup found: the stored hash for the email, no such
/// account, or a store failure. The surrounding I/O hands this in.
pub enum LookupOutcome {
    Found { user_id: i32, password_hash: String },
    NotFound,
    StoreError,
}

/// The uniform rejection: the same status and body whether the account does
/// not exist or the password is wrong, so nothing leaks account existence.
pub open spec fn invalid_credentials_response(r: (u16, LoginResponse)) -> bool {
    &&& r.0 == 401
    &&& r.1 matches LoginResponse::Error { error } && error@ == "Invalid credentials"@
}

/// The generic server failure: no internal detail reaches the client.
pub open spec fn generic_error_response(r: (u16, LoginResponse)) -> bool {
    &&& r.0 == 500
    &&& r.1 matches LoginResponse::Error { error } && error@ == "An unexpected error occurred"@
}

/// The login decision. An unknown account and a wrong password produce the
/// very same response; a malformed stored hash or a store failure produce
/// the generic failure; a verified password yields a signed token bound to
/// the user's id.
pub fn login(lookup: LookupOutcome, password: &str, app_key: &[u8]) -> (r: (u16, LoginResponse))
    ensures
        lookup is NotFound ==> invalid_credentials_response(r),
        (match lookup {
            LookupOutcome::Found { password_hash, .. } => phc_parses(password_hash@)
                && !argon2_match(password@, password_hash@),
            _ => false,
        }) ==> invalid_credentials_response(r),
        lookup is StoreError ==> generic_error_response(r),
        (match lookup {
            LookupOutcome::Found { password_hash, .. } => !phc_parses(password_hash@),
            _ => false,
        }) ==> generic_error_response(r),
        (match lookup {
            LookupOutcome::Found { user_id, password_hash } => (phc_parses(password_hash@)
                && argon2_match(password@, password_hash@)) ==> ((r.0 == 200 && (
            r.1 matches LoginResponse::Success { token } && exists|e: u64|
                token@ == #[trigger] jwt_of(
                    dec_signed_digits(user_id as int),
                    e,
                    app_key@,
                ))) || generic_error_response(r)),
            _ => true,
        }),
{
    let (user_id, password_hash) = match lookup {
        LookupOutcome::Found { user_id, password_hash } => (user_id, password_hash),
        LookupOutcome::NotFound => {
            return (401, LoginResponse::error("Invalid credentials"));
        },
        LookupOutcome::StoreError => {
            return (500, LoginResponse::error("An unexpected error occurred"));
        },
    };
    match verify_password(password, password_hash.as_str()) {
        Ok(true) => {
            let subject = i32_to_string(user_id);
            match crate::jwt::generate_jwt(subject.as_str(), app_key) {
                Ok(token) => {
                    proof {
                        let e0 = choose|e: u64| token@ == #[trigger] jwt_of(subject@, e, app_key@);
                        assert(token@ == jwt_of(
                            dec_signed_digits(user_id as int),
                            e0,
                            app_key@,
                        ));
                    }
                    (200, LoginResponse::success(token.as_str()))
                },
                Err(_) => (500, LoginResponse::error("An unexpected error occurred")),
            }
        },
        Ok(false) => (401, LoginResponse::error("Invalid credentials")),
        Err(_) => (500, LoginResponse::error("An unexpected error occurred")),
    }
}

/// The single row that carries the email, when exactly one does.
pub open spec fn sole_email_row(tv: Seq<crate::store::RowView>, email: Seq<char>, i: int) -> bool {
    &&& 0 <= i < tv.len()
    &&& tv[i].fields[1] == ValueView::Text(email)
    &&& forall|j: int|
        0 <= j < tv.len() && j != i ==> tv[j].fields[1] != ValueView::Text(email)
}

/// The login flow against the store model: looks the stored hash up by
/// email and decides as `login` does. An email no row carries is answered
/// exactly as a wrong password on an existing account is; a correct
/// password on the account's stored hash earns the token.
pub fn login_with_store(table: &Table, request: &LoginRequest, app_key: &[u8]) -> (r: (
    u16,
    LoginResponse,
))
    requires
        table.wf(),
        table.ncols == 8,
    ensures
        (forall|i: int|
            0 <= i < table@.len() ==> (#[trigger] table@[i]).fields[1] != ValueView::Text(
                request.email@,
            )) ==> invalid_credentials_response(r),
        forall|i: int|
            #[trigger] sole_email_row(table@, request.email@, i) ==> (match table@[i].fields[3] {
                ValueView::Text(h) => {
                    &&& (phc_parses(h) && !argon2_match(request.password@, h))
                        ==> invalid_credentials_response(r)
                    &&& (phc_parses(h) && argon2_match(request.password@, h)) ==> ((r.0 == 200
                        && r.1 is Success) || generic_error_response(r))
                    &&& !phc_parses(h) ==> generic_error_response(r)
                },
                _ => true,
            }),
{
    let lookup = match User::get_password_hash(table, &request.email) {
        Ok((user_id, password_hash)) => LookupOutcome::Found { user_id, password_hash },
        Err(AppError::UserNotFound(_)) => LookupOutcome::NotFound,
        Err(_) => LookupOutcome::StoreError,
    };
    let ghost lookup_g = lookup;
    let result = login(lookup, request.password.as_str(), app_key);
    proof {
        assert forall|i: int| #[trigger] sole_email_row(table@, request.email@, i) implies (
        match table@[i].fields[3] {
            ValueView::Text(h) => {
                &&& (phc_parses(h) && !argon2_match(request.password@, h))
                    ==> invalid_credentials_response(result)
                &&& (phc_parses(h) && argon2_match(request.password@, h)) ==> ((result.0 == 200
                    && result.1 is Success) || generic_error_response(result))
                &&& !phc_parses(h) ==> generic_error_response(result)
            },
            _ => true,
        }) by {
            match table@[i].fields[3] {
                ValueView::Text(h) => {
                    match lookup_g {
                        LookupOutcome::Found { user_id, password_hash } => {
                            let k = choose|k: int|
                                0 <= k < table@.len() && (#[trigger] table@[k]).fields[1]
                                    == ValueView::Text(request.email@) && table@[k].id
                                    == user_id as int && table@[k].fields[3] == ValueView::Text(
                                    password_hash@,
                                );
                            assert(k == i);
                            assert(password_hash@ == h);
                        },
                        LookupOutcome::NotFound => {
                            // The lookup failed although row i carries the
                            // email with a text hash: impossible.
                            assert(false);
                        },
                        LookupOutcome::StoreError => {
                            assert(false);
                        },
                    }
                },
                _ => {},
            }
        }
    }
    result
}

/// Whether a header value carries the bearer scheme's marker.
pub open spec fn has_bearer_marker(h: Seq<char>) -> bool {
    h.len() >= 7 && h.subrange(0, 7) == "Bearer "@
}

/// The token of an `Authorization: Bearer <token>` header, or nothing when
/// the header does not follow that contract.
pub fn bearer_token(header: &str) -> (r: Option<String>)
    ensures
        match r {
            Some(t) => has_bearer_marker(header@) && t@ == header@.subrange(7, header@.len() as int),
            None => !has_bearer_marker(header@),
        },
{
    proof {
        reveal_strlit("Bearer ");
    }
    let len = header.unicode_len();
    if len < 7 {
        return None;
    }
    let marked = header.get_char(0) == 'B' && header.get_char(1) == 'e' && header.get_char(2)
        == 'a' && header.get_char(3) == 'r' && header.get_char(4) == 'e' && header.get_char(5)
        == 'r' && header.get_char(6) == ' ';
    if !marked {
        proof {
            assert(!has_bearer_marker(header@)) by {
                if has_bearer_marker(header@) {
                    assert(header@.subrange(0, 7)[0] == 'B');
                    assert(header@.subrange(0, 7)[1] == 'e');
                    assert(header@.subrange(0, 7)[2] == 'a');
                    assert(header@.subrange(0, 7)[3] == 'r');
                    assert(header@.subrange(0, 7)[4] == 'e');
                    assert(header@.subrange(0, 7)[5] == 'r');
                    assert(header@.subrange(0, 7)[6] == ' ');
                }
            }
        }
        return None;
    }
    let token = header.substring_char(7, len);
    proof {
        assert(header@.subrange(0, 7) =~= "Bearer "@);
    }
    Some(String::from_str(token))
}

} // verus!
