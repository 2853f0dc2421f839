use asg::model::{ListOptions, Permission, PermissionForCreate, Role, RoleForCreate, User,
    UserForCreate, UserForUpdate};
use asg::error::AppError;
use asg::store::{Row, Table, Value};
use asg::users::list_users;

fn users_table() -> Table {
    Table::new(8)
}

fn sample(name: &str, email: &str) -> UserForCreate {
    UserForCreate {
        name: name.to_string(),
        email: email.to_string(),
        hashed_password: "$argon2id$stub".to_string(),
    }
}

fn options(
    q: Option<&str>,
    page: Option<u16>,
    per_page: Option<u16>,
    sort_by: Option<&str>,
    ascending: Option<bool>,
) -> ListOptions {
    ListOptions {
        q: q.map(|s| s.to_string()),
        page,
        per_page,
        sort_by: sort_by.map(|s| s.to_string()),
        ascending,
    }
}

#[test]
fn create_then_get_returns_an_equal_entity() {
    let mut table = users_table();
    let created = User::create(&mut table, sample("Alice", "alice@example.com")).unwrap();
    let fetched = User::get(&table, created.id).unwrap();
    assert_eq!(fetched.id, created.id);
    assert_eq!(fetched.name, created.name);
    assert_eq!(fetched.email, created.email);
    assert_eq!(fetched.password, created.password);
    assert_eq!(fetched.email_verified_at, created.email_verified_at);
    assert_eq!(fetched.customer_id, created.customer_id);
    assert_eq!(fetched.created_at, created.created_at);
    assert_eq!(fetched.updated_at, created.updated_at);
    assert_eq!(fetched.remember_token, created.remember_token);
}

#[test]
fn update_then_get_reflects_the_new_values() {
    let mut table = users_table();
    let created = User::create(&mut table, sample("Alice", "alice@example.com")).unwrap();
    let data = UserForUpdate {
        name: Some("Alicia".to_string()),
        email: Some("alicia@example.com".to_string()),
        hashed_password: Some("$argon2id$other".to_string()),
        customer_id: None,
    };
    let updated = User::update(&mut table, created.id, data).unwrap();
    assert_eq!(updated.name, "Alicia");
    let fetched = User::get(&table, created.id).unwrap();
    assert_eq!(fetched.name, "Alicia");
    assert_eq!(fetched.email, "alicia@example.com");
    assert_eq!(fetched.password, "$argon2id$other");
}

#[test]
fn update_of_a_missing_id_is_not_found() {
    let mut table = users_table();
    let data = UserForUpdate {
        name: Some("Nobody".to_string()),
        email: None,
        hashed_password: None,
        customer_id: None,
    };
    assert!(matches!(
        User::update(&mut table, 9, data),
        Err(AppError::NotFound)
    ));
}

#[test]
fn delete_then_get_is_not_found() {
    let mut table = users_table();
    let created = User::create(&mut table, sample("Alice", "alice@example.com")).unwrap();
    User::delete(&mut table, created.id).unwrap();
    assert!(matches!(
        User::get(&table, created.id),
        Err(AppError::NotFound)
    ));
}

#[test]
fn delete_of_a_missing_id_succeeds() {
    let mut table = users_table();
    assert!(User::delete(&mut table, 12345).is_ok());
}

#[test]
fn duplicate_email_is_a_store_failure() {
    let mut table = users_table();
    User::create(&mut table, sample("Alice", "alice@example.com")).unwrap();
    let result = User::create(&mut table, sample("Alias", "alice@example.com"));
    assert!(matches!(result, Err(AppError::DatabaseError)));
}

#[test]
fn password_hash_lookup_by_email() {
    let mut table = users_table();
    let created = User::create(&mut table, sample("Alice", "alice@example.com")).unwrap();
    let email = "alice@example.com".to_string();
    let (id, hash) = User::get_password_hash(&table, &email).unwrap();
    assert_eq!(id, created.id);
    assert_eq!(hash, "$argon2id$stub");
    let missing = "nobody@example.com".to_string();
    assert!(matches!(
        User::get_password_hash(&table, &missing),
        Err(AppError::UserNotFound(_))
    ));
}

#[test]
fn email_verification_stamps_the_row() {
    let mut table = users_table();
    let created = User::create(&mut table, sample("Alice", "alice@example.com")).unwrap();
    User::set_email_verified_at(&mut table, created.id, 1700000000).unwrap();
    let fetched = User::get(&table, created.id).unwrap();
    assert_eq!(fetched.email_verified_at, Some(1700000000));
    // As the underlying statement does, a missing id is not an error.
    assert!(User::set_email_verified_at(&mut table, 999, 1700000000).is_ok());
}

fn seed_users(table: &mut Table, count: usize) {
    let mut i = 0;
    while i < count {
        let name = format!("User{:02}", i);
        let email = format!("user{:02}@example.com", i);
        User::create(table, sample(&name, &email)).unwrap();
        i += 1;
    }
}

#[test]
fn twenty_five_rows_make_three_pages_of_ten() {
    let mut table = users_table();
    seed_users(&mut table, 25);
    let list = User::list(&table, &options(None, None, Some(10), None, None)).unwrap();
    assert_eq!(list.pagination.total_count, 25);
    assert_eq!(list.pagination.total_pages, 3);
    assert_eq!(list.pagination.per_page, 10);
    assert_eq!(list.pagination.current_page, 1);
    assert_eq!(list.data.len(), 10);
}

#[test]
fn the_third_page_holds_the_last_five_rows() {
    let mut table = users_table();
    seed_users(&mut table, 25);
    let list = User::list(&table, &options(None, Some(3), Some(10), None, None)).unwrap();
    assert_eq!(list.pagination.current_page, 3);
    assert_eq!(list.data.len(), 5);
    // Default order is ascending by id.
    assert_eq!(list.data[0].id, 21);
    assert_eq!(list.data[4].id, 25);
}

#[test]
fn the_query_filters_case_insensitively() {
    let mut table = users_table();
    User::create(&mut table, sample("Alice", "alice@example.com")).unwrap();
    User::create(&mut table, sample("Bob", "bob@example.com")).unwrap();
    User::create(&mut table, sample("MALICE", "malice@example.com")).unwrap();
    let list = User::list(&table, &options(Some("lIcE"), None, None, None, None)).unwrap();
    assert_eq!(list.pagination.total_count, 2);
    assert_eq!(list.data.len(), 2);
    assert!(list.data.iter().all(|u| u.name.to_lowercase().contains("lice")));
}

#[test]
fn sorting_descending_by_name() {
    let mut table = users_table();
    User::create(&mut table, sample("Carol", "carol@example.com")).unwrap();
    User::create(&mut table, sample("Alice", "alice@example.com")).unwrap();
    User::create(&mut table, sample("Bob", "bob@example.com")).unwrap();
    let list = User::list(&table, &options(None, None, None, Some("name"), Some(false))).unwrap();
    let names: Vec<&str> = list.data.iter().map(|u| u.name.as_str()).collect();
    assert_eq!(names, vec!["Carol", "Bob", "Alice"]);
}

#[test]
fn an_unknown_sort_column_is_refused() {
    let mut table = users_table();
    seed_users(&mut table, 3);
    let bad = options(None, None, None, Some("name; DROP TABLE users"), None);
    assert!(User::list(&table, &bad).is_err());
    // The route's fallback echoes an empty page instead.
    let fallback = list_users(&table, &bad);
    assert_eq!(fallback.data.len(), 0);
    assert_eq!(fallback.pagination.total_count, 0);
    assert_eq!(fallback.pagination.total_pages, 0);
}

#[test]
fn per_page_is_clamped_into_range() {
    let mut table = users_table();
    seed_users(&mut table, 15);
    let list = User::list(&table, &options(None, None, Some(2), None, None)).unwrap();
    assert_eq!(list.pagination.per_page, 10);
    assert_eq!(list.data.len(), 10);
}

#[test]
fn an_empty_table_lists_an_empty_first_page() {
    let table = users_table();
    let list = User::list(&table, &options(None, None, None, None, None)).unwrap();
    assert_eq!(list.data.len(), 0);
    assert_eq!(list.pagination.total_count, 0);
    assert_eq!(list.pagination.total_pages, 0);
}

#[test]
fn roles_follow_the_same_repository_pattern() {
    let mut table = Table::new(1);
    let role = Role::create(&mut table, RoleForCreate { name: "admin".to_string() }).unwrap();
    assert_eq!(Role::get(&table, role.id).unwrap().name, "admin");
    let renamed = Role::update(&mut table, role.id, RoleForCreate { name: "root".to_string() })
        .unwrap();
    assert_eq!(renamed.name, "root");
    assert_eq!(Role::get(&table, role.id).unwrap().name, "root");
    Role::delete(&mut table, role.id).unwrap();
    assert!(matches!(Role::get(&table, role.id), Err(AppError::NotFound)));
}

#[test]
fn permissions_follow_the_same_repository_pattern() {
    let mut table = Table::new(1);
    let p = Permission::create(&mut table, PermissionForCreate { name: "edit".to_string() })
        .unwrap();
    assert_eq!(Permission::get(&table, p.id).unwrap().name, "edit");
    let dup = Permission::create(&mut table, PermissionForCreate { name: "edit".to_string() });
    assert!(matches!(dup, Err(AppError::DatabaseError)));
    Permission::delete(&mut table, p.id).unwrap();
    assert!(matches!(Permission::get(&table, p.id), Err(AppError::NotFound)));
}

#[test]
fn nulls_order_before_values_in_a_sort() {
    let mut table = users_table();
    let first = User::create(&mut table, sample("Alice", "alice@example.com")).unwrap();
    let second = User::create(&mut table, sample("Bob", "bob@example.com")).unwrap();
    User::set_email_verified_at(&mut table, first.id, 1700000000).unwrap();
    let list = User::list(
        &table,
        &options(None, None, None, Some("email_verified_at"), Some(true)),
    )
    .unwrap();
    assert_eq!(list.data[0].id, second.id);
    assert_eq!(list.data[0].email_verified_at, None);
    assert_eq!(list.data[1].id, first.id);
    assert_eq!(list.data[1].email_verified_at, Some(1700000000));
}

#[test]
fn role_listing_paginates_and_filters_like_users() {
    let mut table = Table::new(1);
    let names = ["admin", "editor", "viewer", "auditor"];
    for name in names {
        Role::create(&mut table, RoleForCreate { name: name.to_string() }).unwrap();
    }
    let all = Role::list(&table, &options(None, None, None, Some("name"), Some(true))).unwrap();
    let listed: Vec<&str> = all.data.iter().map(|r| r.name.as_str()).collect();
    assert_eq!(listed, vec!["admin", "auditor", "editor", "viewer"]);
    let filtered = Role::list(&table, &options(Some("IT"), None, None, None, None)).unwrap();
    let listed: Vec<&str> = filtered.data.iter().map(|r| r.name.as_str()).collect();
    assert_eq!(listed, vec!["editor", "auditor"]);
}

#[test]
fn permission_listing_shares_the_engine() {
    let mut table = Table::new(1);
    for name in ["read", "write"] {
        Permission::create(&mut table, PermissionForCreate { name: name.to_string() }).unwrap();
    }
    let list = Permission::list(&table, &options(None, None, None, None, None)).unwrap();
    assert_eq!(list.pagination.total_count, 2);
    assert_eq!(list.data.len(), 2);
}

#[test]
fn a_malformed_stored_hash_is_a_store_failure_not_a_missing_account() {
    // A row whose password column lost its text: reading it is a store
    // failure, distinct from "no account under this email".
    let table = Table {
        rows: vec![Row {
            id: 1,
            fields: vec![
                Value::Text("Alice".to_string()),
                Value::Text("alice@example.com".to_string()),
                Value::Null,
                Value::Int(12345),
                Value::Null,
                Value::Null,
                Value::Null,
                Value::Null,
            ],
        }],
        next_id: 2,
        ncols: 8,
    };
    let email = "alice@example.com".to_string();
    assert!(matches!(
        User::get_password_hash(&table, &email),
        Err(AppError::DatabaseError)
    ));
}

#[test]
fn permissions_rename_like_roles() {
    let mut table = Table::new(1);
    let p = Permission::create(&mut table, PermissionForCreate { name: "read".to_string() })
        .unwrap();
    let renamed =
        Permission::update(&mut table, p.id, PermissionForCreate { name: "audit".to_string() })
            .unwrap();
    assert_eq!(renamed.name, "audit");
    assert_eq!(Permission::get(&table, p.id).unwrap().name, "audit");
    let missing = Permission::update(&mut table, 99, PermissionForCreate {
        name: "x".to_string(),
    });
    assert!(matches!(missing, Err(AppError::NotFound)));
}
