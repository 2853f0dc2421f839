use vstd::prelude::*;

use crate::model::{List, ListOptions, User, UserForCreate};
use crate::repository::{
    user_create_row, user_matches_row, user_row_ok, users_list_post, users_sort_allowed,
};
use crate::security::{argon2_match, b64_decode_of, key_fits_salt, phc_parses};
use crate::store::{Table, ValueView};
use crate::validators::{email_valid, valid_password};

verus! {

pub struct CreateUserRequest {
    pub name: String,
    pub email: String,
    pub password: String,
}

/// One field's validation failures, as the response body reports them.
pub struct FieldError {
    pub field: String,
    pub messages: Vec<String>,
}

pub struct ValidationErrorResponse {
    pub success: bool,
    pub message: String,
    pub errors: Vec<FieldError>,
}

pub struct GeneralErrorResponse {
    pub success: bool,
    pub message: String,
}

pub struct SuccessResponse {
    pub success: bool,
    pub message: String,
    pub data: User,
}

pub enum CreateUserResponse {
    Success(SuccessResponse),
    ValidationError(ValidationErrorResponse),
    GeneralError(GeneralErrorResponse),
}

pub enum GetUserResponse {
    Success(User),
    Error { error: String },
}

/// The request-body rules: name of 3 to 80 characters, a valid email, and
/// a password of at most 64 characters meeting the password policy.
pub open spec fn valid_create_request(r: CreateUserRequest) -> bool {
    &&& 3 <= r.name@.len() <= 80
    &&& email_valid(r.email@)
    &&& valid_password(r.password@)
    &&& r.password@.len() <= 64
}

/// The first password rule a password breaks, as its message.
pub open spec fn password_message(s: Seq<char>) -> Seq<char> {
    if s.len() < 8 {
        "Password must be at least 8 characters long"@
    } else if !crate::validators::has_lower(s) {
        "Password must contain at least one lowercase letter"@
    } else if !crate::validators::has_upper(s) {
        "Password must contain at least one uppercase letter"@
    } else if !crate::validators::has_digit(s) {
        "Password must contain at least one number"@
    } else {
        "Password must contain at least one special character"@
    }
}

/// A field error at the view level: the field name and its messages.
pub open spec fn field_error_view(f: FieldError) -> (Seq<char>, Seq<Seq<char>>) {
    (f.field@, f.messages@.map_values(|m: String| m@))
}

/// The errors a request earns, field by field, in body order.
pub open spec fn expected_errors(r: CreateUserRequest) -> Seq<(Seq<char>, Seq<Seq<char>>)> {
    (if !(3 <= r.name@.len() <= 80) {
        seq![("name"@, seq!["Invalid value"@])]
    } else {
        Seq::empty()
    }) + (if !email_valid(r.email@) {
        seq![("email"@, seq!["Invalid value"@])]
    } else {
        Seq::empty()
    }) + (if !valid_password(r.password@) {
        seq![("password"@, seq![password_message(r.password@)])]
    } else if r.password@.len() > 64 {
        seq![("password"@, seq!["Invalid value"@])]
    } else {
        Seq::empty()
    })
}

/// Checks the request body; a failing request is answered with one message
/// per failing field.
pub fn validate_create_user(req: &CreateUserRequest) -> (r: Result<(), ValidationErrorResponse>)
    ensures
        match r {
            Ok(_) => valid_create_request(*req),
            Err(v) => {
                &&& !valid_create_request(*req)
                &&& v.success == false
                &&& v.message@ == "Validation failed."@
                &&& v.errors@.map_values(|f: FieldError| field_error_view(f)) == expected_errors(
                    *req,
                )
            },
        },
{
    let mut errors: Vec<FieldError> = Vec::new();
    let name_len = req.name.unicode_len();
    let name_ok = 3 <= name_len && name_len <= 80;
    if !name_ok {
        errors.push(
            FieldError {
                field: String::from_str("name"),
                messages: vec![String::from_str("Invalid value")],
            },
        );
    }
    let email_ok = crate::validators::check_email(req.email.as_str());
    if !email_ok {
        errors.push(
            FieldError {
                field: String::from_str("email"),
                messages: vec![String::from_str("Invalid value")],
            },
        );
    }
    let mut password_ok = false;
    match crate::validators::password_rules(req.password.as_str()) {
        Ok(_) => {
            if req.password.unicode_len() > 64 {
                errors.push(
                    FieldError {
                        field: String::from_str("password"),
                        messages: vec![String::from_str("Invalid value")],
                    },
                );
            } else {
                password_ok = true;
            }
        },
        Err(m) => {
            proof {
                assert(m@ == password_message(req.password@));
            }
            errors.push(FieldError { field: String::from_str("password"), messages: vec![m] });
        },
    }
    if name_ok && email_ok && password_ok {
        proof {
            assert(errors@.len() == 0);
        }
        Ok(())
    } else {
        proof {
            assert(errors@.map_values(|f: FieldError| field_error_view(f)) =~~= expected_errors(
                *req,
            ));
        }
        Err(
            ValidationErrorResponse {
                success: false,
                message: String::from_str("Validation failed."),
                errors,
            },
        )
    }
}

/// What a created user looks like against the store: the entity carries the
/// requested name and email and some hash that verifies the requested
/// password, and the store gained exactly that row.
pub open spec fn created_user_ok(
    old_rows: Seq<crate::store::RowView>,
    new_rows: Seq<crate::store::RowView>,
    old_next_id: int,
    req: CreateUserRequest,
    u: User,
) -> bool {
    exists|h: Seq<char>|
        {
            &&& u.id as int == old_next_id
            &&& u.name@ == req.name@
            &&& u.email@ == req.email@
            &&& u.password@ == h
            &&& argon2_match(req.password@, h)
            &&& phc_parses(h)
            &&& new_rows == old_rows.push(
                #[trigger] user_create_row(req.name@, req.email@, h, old_next_id),
            )
        }
}

/// The create-user flow: validate the body, hash the password over the
/// application key, and insert. A failing validation is a 400 with the
/// per-field errors; a failing hash is a 400; a store failure — a duplicate
/// email among them — is the generic 500; success is a 201 carrying the
/// created user.
pub fn create_user(table: &mut Table, req: CreateUserRequest, app_key: &[u8]) -> (r: (
    u16,
    CreateUserResponse,
))
    requires
        old(table).wf(),
        old(table).ncols == 8,
    ensures
        final(table).wf(),
        final(table).ncols == 8,
        match r.1 {
            CreateUserResponse::ValidationError(v) => {
                &&& r.0 == 400
                &&& final(table)@ == old(table)@
                &&& ((!valid_create_request(req) && v.message@ == "Validation failed."@
                    && v.errors@.map_values(|f: FieldError| field_error_view(f))
                    == expected_errors(req)) || (valid_create_request(req) && v.message@
                    == "Failed to hash password."@ && v.errors@.len() == 0 && (b64_decode_of(
                    app_key@,
                ) is None || !key_fits_salt(b64_decode_of(app_key@).unwrap().len()))))
                &&& v.success == false
            },
            CreateUserResponse::GeneralError(g) => {
                &&& r.0 == 500
                &&& valid_create_request(req)
                &&& final(table)@ == old(table)@
                &&& g.success == false
                &&& g.message@ == "An unexpected error occurred. Please try again later."@
                &&& (old(table).next_id == i32::MAX || exists|i: int|
                    0 <= i < old(table)@.len() && (#[trigger] old(table)@[i]).fields[1]
                        == ValueView::Text(req.email@))
            },
            CreateUserResponse::Success(s) => {
                &&& r.0 == 201
                &&& valid_create_request(req)
                &&& s.success == true
                &&& s.message@ == "User created successfully."@
                &&& forall|i: int|
                    0 <= i < old(table)@.len() ==> (#[trigger] old(table)@[i]).fields[1]
                        != ValueView::Text(req.email@)
                &&& created_user_ok(
                    old(table)@,
                    final(table)@,
                    old(table).next_id as int,
                    req,
                    s.data,
                )
            },
        },
        !valid_create_request(req) ==> r.1 is ValidationError,
{
    let req_copy_name = req.name.clone();
    let req_copy_email = req.email.clone();
    if let Err(v) = validate_create_user(&req) {
        return (400, CreateUserResponse::ValidationError(v));
    }
    let hashed_password = match crate::security::hash_password(req.password.as_str(), app_key) {
        Ok(h) => h,
        Err(_) => {
            let v = ValidationErrorResponse {
                success: false,
                message: String::from_str("Failed to hash password."),
                errors: Vec::new(),
            };
            return (400, CreateUserResponse::ValidationError(v));
        },
    };
    let data = UserForCreate {
        name: req_copy_name,
        email: req_copy_email,
        hashed_password,
    };
    match User::create(table, data) {
        Ok(user) => {
            proof {
                assert(created_user_ok(
                    old(table)@,
                    final(table)@,
                    old(table).next_id as int,
                    req,
                    user,
                ));
            }
            (
                201,
                CreateUserResponse::Success(
                    SuccessResponse {
                        success: true,
                        message: String::from_str("User created successfully."),
                        data: user,
                    },
                ),
            )
        },
        Err(_) => (
            500,
            CreateUserResponse::GeneralError(
                GeneralErrorResponse {
                    success: false,
                    message: String::from_str(
                        "An unexpected error occurred. Please try again later.",
                    ),
                },
            ),
        ),
    }
}

/// The user-by-id route: a missing or malformed record is the same
/// not-found response.
pub fn get_user(table: &Table, id: i32) -> (r: (u16, GetUserResponse))
    requires
        table.wf(),
        table.ncols == 8,
    ensures
        match r.1 {
            GetUserResponse::Success(u) => r.0 == 200 && exists|i: int|
                0 <= i < table@.len() && (#[trigger] table@[i]).id == id && user_matches_row(
                    u,
                    table@[i],
                ),
            GetUserResponse::Error { error } => {
                &&& r.0 == 404
                &&& error@ == "Not found"@
                &&& ((forall|i: int| 0 <= i < table@.len() ==> (#[trigger] table@[i]).id != id)
                    || exists|i: int|
                    0 <= i < table@.len() && (#[trigger] table@[i]).id == id && !user_row_ok(
                        table@[i],
                    ))
            },
        },
{
    match User::get(table, id) {
        Ok(u) => (200, GetUserResponse::Success(u)),
        Err(_) => (404, GetUserResponse::Error { error: String::from_str("Not found") }),
    }
}

/// The listing route: a failing listing is answered with an empty page that
/// echoes the request, as the route does.
pub fn list_users(table: &Table, options: &ListOptions) -> (r: List<User>)
    requires
        table.wf(),
        table.ncols == 8,
    ensures
        users_list_post(table@, *options, r) || (r.data@.len() == 0 && r.pagination.current_page
            == crate::model::effective_page(options.page) && r.pagination.per_page == (
        match options.per_page {
            Some(p) => p,
            None => 1u16,
        }) && r.pagination.total_pages == 0 && r.pagination.total_count == 0),
        (crate::model::effective_page(options.page) >= 1 && users_sort_allowed(options.sort_by)
            && table@.len() <= u16::MAX && (forall|i: int|
            0 <= i < table@.len() ==> user_row_ok(#[trigger] table@[i]))) ==> users_list_post(
            table@,
            *options,
            r,
        ),
{
    match User::list(table, options) {
        Ok(l) => l,
        Err(_) => {
            let current_page = crate::model::page_of(options);
            let per_page = match options.per_page {
                Some(p) => p,
                None => 1,
            };
            List {
                data: Vec::new(),
                pagination: crate::model::Paginator {
                    current_page,
                    per_page,
                    total_pages: 0,
                    total_count: 0,
                },
            }
        },
    }
}


// ---------------------------------------------------------------------------
// Reading the failing field out of a deserializer's message.
// ---------------------------------------------------------------------------

/// The needle occurs in the haystack at the given position, exactly.
pub open spec fn match_at(h: Seq<char>, n: Seq<char>, pos: int) -> bool {
    &&& 0 <= pos
    &&& pos + n.len() <= h.len()
    &&& forall|k: int| 0 <= k < n.len() ==> h[pos + k] == n[k]
}

/// The needle's first occurrence is at the given position.
pub open spec fn first_match_at(h: Seq<char>, n: Seq<char>, pos: int) -> bool {
    &&& match_at(h, n, pos)
    &&& forall|j: int| 0 <= j < pos ==> !match_at(h, n, j)
}

fn find_sub(haystack: &str, needle: &str) -> (r: Option<usize>)
    ensures
        match r {
            Some(p) => first_match_at(haystack@, needle@, p as int),
            None => forall|j: int| !match_at(haystack@, needle@, j),
        },
{
    let hl = haystack.unicode_len();
    let nl = needle.unicode_len();
    if nl > hl {
        return None;
    }
    let mut pos: usize = 0;
    while pos <= hl - nl
        invariant
            hl == haystack@.len(),
            nl == needle@.len(),
            nl <= hl,
            0 <= pos <= hl - nl + 1,
            forall|j: int| 0 <= j < pos ==> !match_at(haystack@, needle@, j),
        decreases hl - nl + 1 - pos,
    {
        let mut k: usize = 0;
        let mut mismatch = false;
        while k < nl
            invariant
                hl == haystack@.len(),
                nl == needle@.len(),
                pos + nl <= hl,
                0 <= k <= nl,
                !mismatch ==> forall|m: int| 0 <= m < k ==> haystack@[pos + m] == needle@[m],
                mismatch ==> !match_at(haystack@, needle@, pos as int),
            decreases nl - k,
        {
            if haystack.get_char(pos + k) != needle.get_char(k) {
                proof {
                    assert(haystack@[pos + k] != needle@[k as int]);
                }
                mismatch = true;
            }
            k = k + 1;
        }
        if !mismatch {
            proof {
                assert(match_at(haystack@, needle@, pos as int));
            }
            return Some(pos);
        }
        pos = pos + 1;
    }
    proof {
        assert forall|j: int| !match_at(haystack@, needle@, j) by {
            if match_at(haystack@, needle@, j) {
                assert(0 <= j < pos);
            }
        }
    }
    None
}

/// The first position at or after `from` holding the character.
pub open spec fn first_char_from(h: Seq<char>, c: char, from: int, e: int) -> bool {
    &&& from <= e < h.len()
    &&& h[e] == c
    &&& forall|j: int| from <= j < e ==> h[j] != c
}

fn find_char_from(haystack: &str, c: char, from: usize) -> (r: Option<usize>)
    requires
        from <= haystack@.len(),
    ensures
        match r {
            Some(e) => first_char_from(haystack@, c, from as int, e as int),
            None => forall|j: int| from <= j < haystack@.len() ==> haystack@[j] != c,
        },
{
    let hl = haystack.unicode_len();
    let mut i: usize = from;
    while i < hl
        invariant
            hl == haystack@.len(),
            from <= i <= hl,
            forall|j: int| from <= j < i ==> haystack@[j] != c,
        decreases hl - i,
    {
        if haystack.get_char(i) == c {
            return Some(i);
        }
        i = i + 1;
    }
    None
}

/// The name a deserializer's message blames, when the message carries one:
/// the text between the marker and the next backtick.
pub fn extract_missing_field(message: &str) -> (r: Option<String>)
    ensures
        match r {
            Some(f) => exists|p: int, e: int|
                #![trigger first_match_at(message@, "missing field `"@, p), first_char_from(message@, '`', p + 15, e)]
                {
                    &&& first_match_at(message@, "missing field `"@, p)
                    &&& first_char_from(message@, '`', p + 15, e)
                    &&& f@ == message@.subrange(p + 15, e)
                },
            None => {
                ||| (forall|j: int| !match_at(message@, "missing field `"@, j))
                ||| exists|p: int|
                    {
                        &&& #[trigger] first_match_at(message@, "missing field `"@, p)
                        &&& forall|j: int|
                            p + 15 <= j < message@.len() ==> message@[j] != '`'
                    }
            },
        },
{
    let marker = "missing field `";
    proof {
        reveal_strlit("missing field `");
    }
    let hl = message.unicode_len();
    let start = match find_sub(message, marker) {
        Some(p) => p,
        None => {
            return None;
        },
    };
    proof {
        assert(start + 15 <= hl);
    }
    let field_start = start + 15;
    match find_char_from(message, '`', field_start) {
        Some(end) => {
            let field = message.substring_char(field_start, end);
            Some(String::from_str(field))
        },
        None => None,
    }
}

} // verus!
