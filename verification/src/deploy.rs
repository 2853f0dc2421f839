use vstd::prelude::*;

use crate::sql::{check_sql_ident, is_sql_ident};

verus! {

// Deployment works with identifiers and one secret taken from the
// environment; every statement here refuses inputs that could change the
// statement's structure, and the callers run what comes back unchanged.

/// No single quote: the only character that could escape a quoted literal
/// in these statements.
pub open spec fn no_quote(s: Seq<char>) -> bool {
    forall|i: int| 0 <= i < s.len() ==> s[i] != '\''
}

fn check_no_quote(s: &str) -> (r: bool)
    ensures
        r == no_quote(s@),
{
    let len = s.unicode_len();
    let mut i: usize = 0;
    while i < len
        invariant
            len == s@.len(),
            0 <= i <= len,
            forall|j: int| 0 <= j < i ==> s@[j] != '\'',
        decreases len - i,
    {
        if s.get_char(i) == '\'' {
            return false;
        }
        i = i + 1;
    }
    true
}

pub open spec fn grant_usage_stmt(schema: Seq<char>, user: Seq<char>) -> Seq<char> {
    "GRANT USAGE, CREATE ON SCHEMA "@ + schema + " TO "@ + user
}

pub open spec fn grant_tables_stmt(schema: Seq<char>, user: Seq<char>) -> Seq<char> {
    "ALTER DEFAULT PRIVILEGES IN SCHEMA "@ + schema
        + " GRANT ALL PRIVILEGES ON TABLES TO "@ + user
}

pub open spec fn grant_sequences_stmt(schema: Seq<char>, user: Seq<char>) -> Seq<char> {
    "ALTER DEFAULT PRIVILEGES IN SCHEMA "@ + schema
        + " GRANT ALL PRIVILEGES ON SEQUENCES TO "@ + user
}

/// The schema-privilege grants, in execution order, or nothing when either
/// name is no safe identifier.
pub fn grant_schema_statements(schema: &str, db_user: &str) -> (r: Option<Vec<String>>)
    ensures
        match r {
            Some(v) => {
                &&& is_sql_ident(schema@)
                &&& is_sql_ident(db_user@)
                &&& v@.map_values(|s: String| s@) == seq![
                    grant_usage_stmt(schema@, db_user@),
                    grant_tables_stmt(schema@, db_user@),
                    grant_sequences_stmt(schema@, db_user@),
                ]
            },
            None => !is_sql_ident(schema@) || !is_sql_ident(db_user@),
        },
{
    if !check_sql_ident(schema) || !check_sql_ident(db_user) {
        return None;
    }
    let mut statements: Vec<String> = Vec::new();
    let mut first = String::from_str("GRANT USAGE, CREATE ON SCHEMA ");
    first.append(schema);
    first.append(" TO ");
    first.append(db_user);
    statements.push(first);
    let mut second = String::from_str("ALTER DEFAULT PRIVILEGES IN SCHEMA ");
    second.append(schema);
    second.append(" GRANT ALL PRIVILEGES ON TABLES TO ");
    second.append(db_user);
    statements.push(second);
    let mut third = String::from_str("ALTER DEFAULT PRIVILEGES IN SCHEMA ");
    third.append(schema);
    third.append(" GRANT ALL PRIVILEGES ON SEQUENCES TO ");
    third.append(db_user);
    statements.push(third);
    proof {
        assert(statements@.map_values(|s: String| s@) =~~= seq![
            grant_usage_stmt(schema@, db_user@),
            grant_tables_stmt(schema@, db_user@),
            grant_sequences_stmt(schema@, db_user@),
        ]);
    }
    Some(statements)
}

pub open spec fn database_exists_stmt(name: Seq<char>) -> Seq<char> {
    "SELECT 1 FROM pg_database WHERE datname = '"@ + name + "'"@
}

pub open spec fn create_database_stmt(name: Seq<char>) -> Seq<char> {
    "CREATE DATABASE "@ + name
}

pub open spec fn role_exists_stmt(user: Seq<char>) -> Seq<char> {
    "SELECT 1 FROM pg_roles WHERE rolname = '"@ + user + "'"@
}

pub open spec fn create_role_stmt(user: Seq<char>, password: Seq<char>) -> Seq<char> {
    "CREATE ROLE "@ + user + " WITH LOGIN PASSWORD '"@ + password + "'"@
}

pub open spec fn grant_database_stmt(name: Seq<char>, user: Seq<char>) -> Seq<char> {
    "GRANT ALL PRIVILEGES ON DATABASE "@ + name + " TO "@ + user
}

/// The statements that bring the database, its owner role and the role's
/// database-level privileges into being: the existence probes first, then
/// creation and the grant. Nothing is produced when a name is no safe
/// identifier or the password could escape its quotes.
pub fn create_database_statements(db_name: &str, db_user: &str, db_password: &str) -> (r: Option<
    Vec<String>,
>)
    ensures
        match r {
            Some(v) => {
                &&& is_sql_ident(db_name@)
                &&& is_sql_ident(db_user@)
                &&& no_quote(db_password@)
                &&& v@.map_values(|s: String| s@) == seq![
                    database_exists_stmt(db_name@),
                    create_database_stmt(db_name@),
                    role_exists_stmt(db_user@),
                    create_role_stmt(db_user@, db_password@),
                    grant_database_stmt(db_name@, db_user@),
                ]
            },
            None => !is_sql_ident(db_name@) || !is_sql_ident(db_user@) || !no_quote(db_password@),
        },
{
    if !check_sql_ident(db_name) || !check_sql_ident(db_user) || !check_no_quote(db_password) {
        return None;
    }
    let mut statements: Vec<String> = Vec::new();
    let mut probe_db = String::from_str("SELECT 1 FROM pg_database WHERE datname = '");
    probe_db.append(db_name);
    probe_db.append("'");
    statements.push(probe_db);
    let mut create_db = String::from_str("CREATE DATABASE ");
    create_db.append(db_name);
    statements.push(create_db);
    let mut probe_role = String::from_str("SELECT 1 FROM pg_roles WHERE rolname = '");
    probe_role.append(db_user);
    probe_role.append("'");
    statements.push(probe_role);
    let mut create_role = String::from_str("CREATE ROLE ");
    create_role.append(db_user);
    create_role.append(" WITH LOGIN PASSWORD '");
    create_role.append(db_password);
    create_role.append("'");
    statements.push(create_role);
    let mut grant = String::from_str("GRANT ALL PRIVILEGES ON DATABASE ");
    grant.append(db_name);
    grant.append(" TO ");
    grant.append(db_user);
    statements.push(grant);
    proof {
        assert(statements@.map_values(|s: String| s@) =~~= seq![
            database_exists_stmt(db_name@),
            create_database_stmt(db_name@),
            role_exists_stmt(db_user@),
            create_role_stmt(db_user@, db_password@),
            grant_database_stmt(db_name@, db_user@),
        ]);
    }
    Some(statements)
}

pub open spec fn revoke_schema_stmt(schema: Seq<char>, user: Seq<char>) -> Seq<char> {
    "REVOKE ALL PRIVILEGES ON SCHEMA "@ + schema + " FROM "@ + user
}

pub open spec fn revoke_tables_stmt(schema: Seq<char>, user: Seq<char>) -> Seq<char> {
    "REVOKE ALL PRIVILEGES ON ALL TABLES IN SCHEMA "@ + schema + " FROM "@ + user
}

pub open spec fn revoke_sequences_stmt(schema: Seq<char>, user: Seq<char>) -> Seq<char> {
    "REVOKE ALL PRIVILEGES ON ALL SEQUENCES IN SCHEMA "@ + schema + " FROM "@ + user
}

pub open spec fn revoke_default_tables_stmt(schema: Seq<char>, user: Seq<char>) -> Seq<char> {
    "ALTER DEFAULT PRIVILEGES IN SCHEMA "@ + schema + " REVOKE ALL ON TABLES FROM "@ + user
}

pub open spec fn revoke_default_sequences_stmt(schema: Seq<char>, user: Seq<char>) -> Seq<char> {
    "ALTER DEFAULT PRIVILEGES IN SCHEMA "@ + schema + " REVOKE ALL ON SEQUENCES FROM "@ + user
}

pub open spec fn drop_database_stmt(name: Seq<char>) -> Seq<char> {
    "DROP DATABASE IF EXISTS "@ + name
}

pub open spec fn drop_role_stmt(user: Seq<char>) -> Seq<char> {
    "DROP ROLE IF EXISTS "@ + user
}

/// The statements that tear the deployment down: the privilege revocations
/// in execution order, then the drops, which succeed whether or not their
/// object still exists.
pub fn delete_database_statements(schema: &str, db_name: &str, db_user: &str) -> (r: Option<
    Vec<String>,
>)
    ensures
        match r {
            Some(v) => {
                &&& is_sql_ident(schema@)
                &&& is_sql_ident(db_name@)
                &&& is_sql_ident(db_user@)
                &&& v@.map_values(|s: String| s@) == seq![
                    revoke_schema_stmt(schema@, db_user@),
                    revoke_tables_stmt(schema@, db_user@),
                    revoke_sequences_stmt(schema@, db_user@),
                    revoke_default_tables_stmt(schema@, db_user@),
                    revoke_default_sequences_stmt(schema@, db_user@),
                    drop_database_stmt(db_name@),
                    drop_role_stmt(db_user@),
                ]
            },
            None => !is_sql_ident(schema@) || !is_sql_ident(db_name@) || !is_sql_ident(db_user@),
        },
{
    if !check_sql_ident(schema) || !check_sql_ident(db_name) || !check_sql_ident(db_user) {
        return None;
    }
    let mut statements: Vec<String> = Vec::new();
    let mut revoke_schema = String::from_str("REVOKE ALL PRIVILEGES ON SCHEMA ");
    revoke_schema.append(schema);
    revoke_schema.append(" FROM ");
    revoke_schema.append(db_user);
    statements.push(revoke_schema);
    let mut revoke_tables = String::from_str("REVOKE ALL PRIVILEGES ON ALL TABLES IN SCHEMA ");
    revoke_tables.append(schema);
    revoke_tables.append(" FROM ");
    revoke_tables.append(db_user);
    statements.push(revoke_tables);
    let mut revoke_sequences = String::from_str(
        "REVOKE ALL PRIVILEGES ON ALL SEQUENCES IN SCHEMA ",
    );
    revoke_sequences.append(schema);
    revoke_sequences.append(" FROM ");
    revoke_sequences.append(db_user);
    statements.push(revoke_sequences);
    let mut revoke_default_tables = String::from_str("ALTER DEFAULT PRIVILEGES IN SCHEMA ");
    revoke_default_tables.append(schema);
    revoke_default_tables.append(" REVOKE ALL ON TABLES FROM ");
    revoke_default_tables.append(db_user);
    statements.push(revoke_default_tables);
    let mut revoke_default_sequences = String::from_str("ALTER DEFAULT PRIVILEGES IN SCHEMA ");
    revoke_default_sequences.append(schema);
    revoke_default_sequences.append(" REVOKE ALL ON SEQUENCES FROM ");
    revoke_default_sequences.append(db_user);
    statements.push(revoke_default_sequences);
    let mut drop_db = String::from_str("DROP DATABASE IF EXISTS ");
    drop_db.append(db_name);
    statements.push(drop_db);
    let mut drop_role = String::from_str("DROP ROLE IF EXISTS ");
    drop_role.append(db_user);
    statements.push(drop_role);
    proof {
        assert(statements@.map_values(|s: String| s@) =~~= seq![
            revoke_schema_stmt(schema@, db_user@),
            revoke_tables_stmt(schema@, db_user@),
            revoke_sequences_stmt(schema@, db_user@),
            revoke_default_tables_stmt(schema@, db_user@),
            revoke_default_sequences_stmt(schema@, db_user@),
            drop_database_stmt(db_name@),
            drop_role_stmt(db_user@),
        ]);
    }
    Some(statements)
}

} // verus!
