use asg::auth::{login, login_with_store, LoginRequest, LoginResponse, LookupOutcome};
use asg::config::decode_app_key;
use asg::error::AppError;
use asg::model::{User, UserForCreate};
use asg::security::hash_password;
use asg::store::{Row, Table, Value};
use asg::users::{create_user, get_user, validate_create_user, CreateUserRequest,
    CreateUserResponse, GetUserResponse};
use asg::validators::password_rules;

fn demo_app_key() -> Vec<u8> {
    base64::Engine::encode(&base64::engine::general_purpose::STANDARD, b"0123456789abcdef")
        .into_bytes()
}

fn error_text(r: &LoginResponse) -> &str {
    match r {
        LoginResponse::Error { error } => error.as_str(),
        LoginResponse::Success { .. } => panic!("expected an error response"),
    }
}

fn seeded_table(key: &[u8]) -> (Table, i32) {
    let mut table = Table::new(8);
    let hash = hash_password("Right-Pass1!", key).unwrap();
    let user = User::create(
        &mut table,
        UserForCreate {
            name: "Alice".to_string(),
            email: "alice@example.com".to_string(),
            hashed_password: hash,
        },
    )
    .unwrap();
    (table, user.id)
}

#[test]
fn wrong_password_is_a_401_with_the_uniform_message() {
    let key = demo_app_key();
    let (table, _) = seeded_table(&key);
    let request = LoginRequest {
        email: "alice@example.com".to_string(),
        password: "Wrong-Pass1!".to_string(),
    };
    let (status, body) = login_with_store(&table, &request, &key);
    assert_eq!(status, 401);
    assert_eq!(error_text(&body), "Invalid credentials");
}

#[test]
fn unknown_email_is_answered_exactly_like_a_wrong_password() {
    let key = demo_app_key();
    let (table, _) = seeded_table(&key);
    let wrong_password = LoginRequest {
        email: "alice@example.com".to_string(),
        password: "Wrong-Pass1!".to_string(),
    };
    let unknown_email = LoginRequest {
        email: "nobody@example.com".to_string(),
        password: "Right-Pass1!".to_string(),
    };
    let (status_a, body_a) = login_with_store(&table, &wrong_password, &key);
    let (status_b, body_b) = login_with_store(&table, &unknown_email, &key);
    assert_eq!(status_a, 401);
    assert_eq!(status_a, status_b);
    assert_eq!(error_text(&body_a), error_text(&body_b));
}

#[test]
fn the_right_password_earns_a_token() {
    let key = demo_app_key();
    let (table, user_id) = seeded_table(&key);
    let request = LoginRequest {
        email: "alice@example.com".to_string(),
        password: "Right-Pass1!".to_string(),
    };
    let (status, body) = login_with_store(&table, &request, &key);
    assert_eq!(status, 200);
    let token = match body {
        LoginResponse::Success { token } => token,
        LoginResponse::Error { error } => panic!("login failed: {}", error),
    };
    let claims = asg::jwt::decode_jwt(&token, &key).unwrap();
    assert_eq!(claims.sub, format!("{}", user_id));
}

#[test]
fn a_malformed_stored_hash_is_the_generic_failure() {
    let key = demo_app_key();
    let lookup = LookupOutcome::Found {
        user_id: 1,
        password_hash: "not a phc string".to_string(),
    };
    let (status, body) = login(lookup, "anything", &key);
    assert_eq!(status, 500);
    assert_eq!(error_text(&body), "An unexpected error occurred");
}

#[test]
fn a_store_failure_is_the_generic_failure() {
    let key = demo_app_key();
    let (status, body) = login(LookupOutcome::StoreError, "anything", &key);
    assert_eq!(status, 500);
    assert_eq!(error_text(&body), "An unexpected error occurred");
}

fn create_request(name: &str, email: &str, password: &str) -> CreateUserRequest {
    CreateUserRequest {
        name: name.to_string(),
        email: email.to_string(),
        password: password.to_string(),
    }
}

#[test]
fn a_short_password_is_a_400_naming_the_password_rule() {
    let key = demo_app_key();
    let mut table = Table::new(8);
    let request = create_request("Alice", "alice@example.com", "short");
    let (status, body) = create_user(&mut table, request, &key);
    assert_eq!(status, 400);
    let v = match body {
        CreateUserResponse::ValidationError(v) => v,
        _ => panic!("expected a validation error"),
    };
    assert_eq!(v.message, "Validation failed.");
    assert_eq!(v.errors.len(), 1);
    assert_eq!(v.errors[0].field, "password");
    assert_eq!(
        v.errors[0].messages[0],
        "Password must be at least 8 characters long"
    );
}

#[test]
fn a_duplicate_email_is_the_generic_500() {
    let key = demo_app_key();
    let mut table = Table::new(8);
    let first = create_request("Alice", "alice@example.com", "Right-Pass1!");
    let (status, _) = create_user(&mut table, first, &key);
    assert_eq!(status, 201);
    let second = create_request("Alias", "alice@example.com", "Other-Pass1!");
    let (status, body) = create_user(&mut table, second, &key);
    assert_eq!(status, 500);
    match body {
        CreateUserResponse::GeneralError(g) => {
            assert_eq!(g.message, "An unexpected error occurred. Please try again later.");
        }
        _ => panic!("expected the generic failure"),
    }
}

#[test]
fn a_created_user_can_log_in_and_be_fetched() {
    let key = demo_app_key();
    let mut table = Table::new(8);
    let request = create_request("Alice", "alice@example.com", "Right-Pass1!");
    let (status, body) = create_user(&mut table, request, &key);
    assert_eq!(status, 201);
    let created = match body {
        CreateUserResponse::Success(s) => {
            assert!(s.success);
            assert_eq!(s.message, "User created successfully.");
            s.data
        }
        _ => panic!("expected success"),
    };
    let (status, fetched) = get_user(&table, created.id);
    assert_eq!(status, 200);
    match fetched {
        GetUserResponse::Success(u) => assert_eq!(u.email, "alice@example.com"),
        GetUserResponse::Error { .. } => panic!("expected the user"),
    }
    let login_req = LoginRequest {
        email: "alice@example.com".to_string(),
        password: "Right-Pass1!".to_string(),
    };
    let (status, _) = login_with_store(&table, &login_req, &key);
    assert_eq!(status, 200);
}

#[test]
fn fetching_a_missing_user_is_a_404() {
    let table = Table::new(8);
    let (status, body) = get_user(&table, 5);
    assert_eq!(status, 404);
    match body {
        GetUserResponse::Error { error } => assert_eq!(error, "Not found"),
        GetUserResponse::Success(_) => panic!("expected not found"),
    }
}

#[test]
fn each_failing_field_is_reported() {
    let request = create_request("Al", "not-an-email", "alllowercase");
    let err = validate_create_user(&request).unwrap_err();
    assert!(!err.success);
    let fields: Vec<&str> = err.errors.iter().map(|f| f.field.as_str()).collect();
    assert_eq!(fields, vec!["name", "email", "password"]);
}

#[test]
fn a_valid_request_passes_validation() {
    let request = create_request("Alice", "alice@example.com", "Right-Pass1!");
    assert!(validate_create_user(&request).is_ok());
}

#[test]
fn password_rules_name_the_first_violated_rule() {
    assert!(password_rules("Abc1!xyz").is_ok());
    assert_eq!(
        password_rules("2short!").unwrap_err(),
        "Password must be at least 8 characters long"
    );
    assert_eq!(
        password_rules("ALLUPPER1!").unwrap_err(),
        "Password must contain at least one lowercase letter"
    );
    assert_eq!(
        password_rules("alllower1!").unwrap_err(),
        "Password must contain at least one uppercase letter"
    );
    assert_eq!(
        password_rules("NoDigits!").unwrap_err(),
        "Password must contain at least one number"
    );
    assert_eq!(
        password_rules("NoSpecial1").unwrap_err(),
        "Password must contain at least one special character"
    );
}

#[test]
fn the_app_key_marker_selects_base64_decoding() {
    let decoded = decode_app_key(b"base64:aGVsbG8=").unwrap();
    assert_eq!(decoded, b"hello");
    let raw = decode_app_key(b"raw-bytes-key").unwrap();
    assert_eq!(raw, b"raw-bytes-key");
    assert!(matches!(
        decode_app_key(b"base64:!!!"),
        Err(AppError::ConfigError)
    ));
}

#[test]
fn errors_describe_themselves_safely() {
    assert_eq!(AppError::InvalidCredentials.message(), "Invalid credentials");
    assert_eq!(
        AppError::UserNotFound("a@b.se".to_string()).message(),
        "User not found: a@b.se"
    );
    assert_eq!(AppError::Unauthorized.message(), "Unauthorized");
    assert_eq!(AppError::NotFound.message(), "Not found");
    assert_eq!(AppError::TokenError.message(), "Token error");
    assert_eq!(AppError::HashError.message(), "Hashing error");
    assert_eq!(AppError::DatabaseError.message(), "Database error");
    assert_eq!(AppError::InvalidPasswordHash.message(), "Invalid password hash");
    assert_eq!(AppError::ConfigError.message(), "Configuration error");
}

#[test]
fn the_failing_field_is_read_out_of_a_deserializer_message() {
    let found = asg::users::extract_missing_field(
        "missing field `email` at line 1 column 40",
    );
    assert_eq!(found, Some("email".to_string()));
    assert_eq!(asg::users::extract_missing_field("invalid type: string"), None);
    assert_eq!(asg::users::extract_missing_field("missing field `unterminated"), None);
}

#[test]
fn the_bearer_marker_is_required_and_stripped() {
    assert_eq!(
        asg::auth::bearer_token("Bearer abc.def.ghi"),
        Some("abc.def.ghi".to_string())
    );
    assert_eq!(asg::auth::bearer_token("Basic abc"), None);
    assert_eq!(asg::auth::bearer_token("bearer abc"), None);
    assert_eq!(asg::auth::bearer_token(""), None);
    assert_eq!(asg::auth::bearer_token("Bearer "), Some("".to_string()));
}

#[test]
fn a_corrupt_stored_row_gets_the_generic_failure_at_login() {
    let key = demo_app_key();
    let table = Table {
        rows: vec![Row {
            id: 1,
            fields: vec![
                Value::Text("Alice".to_string()),
                Value::Text("alice@example.com".to_string()),
                Value::Null,
                Value::Int(7),
                Value::Null,
                Value::Null,
                Value::Null,
                Value::Null,
            ],
        }],
        next_id: 2,
        ncols: 8,
    };
    let request = LoginRequest {
        email: "alice@example.com".to_string(),
        password: "whatever".to_string(),
    };
    let (status, body) = login_with_store(&table, &request, &key);
    assert_eq!(status, 500);
    assert_eq!(error_text(&body), "An unexpected error occurred");
}
