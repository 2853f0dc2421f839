use asg::digits::{i32_to_string, u64_to_string, usize_to_string};
use asg::logging::truncate;
use asg::model::Paginator;
use asg::repository::{roles_schema, users_schema};
use asg::sql::{
    count_query, create_placeholders, delete_query, insert_query, list_query, select_query,
    update_query,
};

#[test]
fn placeholders_number_from_one() {
    assert_eq!(create_placeholders(0), "");
    assert_eq!(create_placeholders(1), "$1");
    assert_eq!(create_placeholders(3), "$1, $2, $3");
}

#[test]
fn the_insert_statement_binds_the_create_columns_in_order() {
    let schema = users_schema();
    assert_eq!(
        insert_query(&schema),
        "INSERT INTO users (name, email, password) VALUES ($1, $2, $3) RETURNING *"
    );
}

#[test]
fn the_select_and_delete_statements_bind_the_id() {
    let schema = users_schema();
    assert_eq!(select_query(&schema), "SELECT * FROM users WHERE id = $1");
    assert_eq!(delete_query(&schema), "DELETE FROM users WHERE id = $1");
}

#[test]
fn the_update_statement_reserves_the_first_placeholder_for_the_id() {
    let schema = users_schema();
    assert_eq!(
        update_query(&schema),
        "UPDATE users SET name = $2, email = $3, password = $4, customer_id = $5 \
         WHERE id = $1 RETURNING *"
    );
}

#[test]
fn the_count_statement_searches_every_declared_column() {
    let schema = users_schema();
    assert_eq!(
        count_query(&schema),
        "SELECT COUNT(*) FROM users WHERE name ILIKE $1 OR email ILIKE $1"
    );
}

#[test]
fn the_list_statement_orders_by_an_allow_listed_column() {
    let schema = users_schema();
    let sort = "email".to_string();
    assert_eq!(
        list_query(&schema, &sort, true).unwrap(),
        "SELECT * FROM users WHERE name ILIKE $1 OR email ILIKE $1 \
         ORDER BY email ASC LIMIT $2 OFFSET $3"
    );
    let by_id = "id".to_string();
    assert_eq!(
        list_query(&schema, &by_id, false).unwrap(),
        "SELECT * FROM users WHERE name ILIKE $1 OR email ILIKE $1 \
         ORDER BY id DESC LIMIT $2 OFFSET $3"
    );
}

#[test]
fn free_text_never_reaches_the_statement() {
    let schema = users_schema();
    let injection = "id; DROP TABLE users; --".to_string();
    assert!(list_query(&schema, &injection, true).is_none());
}

#[test]
fn the_role_table_shares_the_statement_shapes() {
    let schema = roles_schema();
    assert_eq!(
        insert_query(&schema),
        "INSERT INTO roles (name) VALUES ($1) RETURNING *"
    );
    assert_eq!(
        count_query(&schema),
        "SELECT COUNT(*) FROM roles WHERE name ILIKE $1"
    );
}

#[test]
fn numbers_render_in_decimal() {
    assert_eq!(u64_to_string(0), "0");
    assert_eq!(u64_to_string(12034), "12034");
    assert_eq!(usize_to_string(101), "101");
    assert_eq!(i32_to_string(-5), "-5");
    assert_eq!(i32_to_string(2147483647), "2147483647");
    assert_eq!(i32_to_string(-2147483648), "-2147483648");
}

#[test]
fn the_paginator_rounds_pages_up() {
    let p = Paginator::make(1, 10, 25);
    assert_eq!(p.total_pages, 3);
    assert_eq!(Paginator::make(1, 10, 0).total_pages, 0);
    assert_eq!(Paginator::make(1, 10, 10).total_pages, 1);
    assert_eq!(Paginator::make(1, 10, 11).total_pages, 2);
    assert_eq!(Paginator::make(2, 1000, 65535).total_pages, 66);
}

#[test]
fn long_log_payloads_are_cut_with_an_ellipsis() {
    assert_eq!(truncate("hello world", 5), "hello...");
    assert_eq!(truncate("hello", 5), "hello");
    assert_eq!(truncate("", 5), "");
}

#[test]
fn deployment_grants_are_built_in_execution_order() {
    let statements = asg::deploy::grant_schema_statements("public", "app_user").unwrap();
    assert_eq!(
        statements,
        vec![
            "GRANT USAGE, CREATE ON SCHEMA public TO app_user".to_string(),
            "ALTER DEFAULT PRIVILEGES IN SCHEMA public \
             GRANT ALL PRIVILEGES ON TABLES TO app_user"
                .to_string(),
            "ALTER DEFAULT PRIVILEGES IN SCHEMA public \
             GRANT ALL PRIVILEGES ON SEQUENCES TO app_user"
                .to_string(),
        ]
    );
}

#[test]
fn deployment_creation_probes_before_it_creates() {
    let statements =
        asg::deploy::create_database_statements("appdb", "app_user", "s3cret").unwrap();
    assert_eq!(statements[0], "SELECT 1 FROM pg_database WHERE datname = 'appdb'");
    assert_eq!(statements[1], "CREATE DATABASE appdb");
    assert_eq!(statements[2], "SELECT 1 FROM pg_roles WHERE rolname = 'app_user'");
    assert_eq!(statements[3], "CREATE ROLE app_user WITH LOGIN PASSWORD 's3cret'");
    assert_eq!(statements[4], "GRANT ALL PRIVILEGES ON DATABASE appdb TO app_user");
}

#[test]
fn deployment_teardown_revokes_then_drops() {
    let statements = asg::deploy::delete_database_statements("public", "appdb", "app_user")
        .unwrap();
    assert_eq!(statements.len(), 7);
    assert_eq!(statements[5], "DROP DATABASE IF EXISTS appdb");
    assert_eq!(statements[6], "DROP ROLE IF EXISTS app_user");
}

#[test]
fn deployment_refuses_unsafe_names_and_secrets() {
    assert!(asg::deploy::grant_schema_statements("public; --", "app_user").is_none());
    assert!(asg::deploy::create_database_statements("appdb", "app user", "pw").is_none());
    assert!(asg::deploy::create_database_statements("appdb", "app_user", "p'w").is_none());
    assert!(asg::deploy::delete_database_statements("public", "1db", "app_user").is_none());
}

#[test]
fn truncation_counts_characters_not_bytes() {
    assert_eq!(truncate("héllo wörld", 5), "héllo...");
    assert_eq!(truncate("héllo", 5), "héllo");
}
