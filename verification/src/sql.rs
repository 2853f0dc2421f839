use vstd::prelude::*;

use crate::digits::{dec_digits, usize_to_string};

verus! {

/// The capability interface of the generic repository: a table name, the
/// column list in row order, and which columns take part in create, update
/// and free-text search. The CRUD engine and the query builders operate
/// only against this description, never against concrete entity types.
pub struct TableSchema {
    pub table_name: String,
    pub columns: Vec<String>,
    pub create_columns: Vec<usize>,
    pub update_columns: Vec<usize>,
    pub search_columns: Vec<usize>,
}

/// A safe SQL identifier: lowercase ASCII letters, digits and underscores,
/// not starting with a digit. Only such identifiers are ever interpolated
/// into query text; everything user-supplied is bound as a parameter.
pub open spec fn is_sql_ident(s: Seq<char>) -> bool {
    &&& s.len() > 0
    &&& !crate::validators::is_digit_char(s[0])
    &&& forall|i: int|
        0 <= i < s.len() ==> (crate::validators::is_lower_char(#[trigger] s[i])
            || crate::validators::is_digit_char(s[i]) || s[i] == '_')
}

/// The column names as character sequences.
pub open spec fn cols_of(s: &TableSchema) -> Seq<Seq<char>> {
    s.columns@.map_values(|c: String| c@)
}

impl TableSchema {
    pub open spec fn wf(&self) -> bool {
        &&& is_sql_ident(self.table_name@)
        &&& forall|i: int| 0 <= i < self.columns@.len() ==> is_sql_ident((#[trigger] self.columns@[i])@)
        &&& forall|k: int|
            0 <= k < self.create_columns@.len() ==> #[trigger] self.create_columns@[k]
                < self.columns@.len()
        &&& forall|k: int|
            0 <= k < self.update_columns@.len() ==> #[trigger] self.update_columns@[k]
                < self.columns@.len()
        &&& forall|k: int|
            0 <= k < self.search_columns@.len() ==> #[trigger] self.search_columns@[k]
                < self.columns@.len()
        &&& self.columns@.len() + 2 <= usize::MAX
        &&& self.create_columns@.len() + 2 <= usize::MAX
        &&& self.update_columns@.len() + 2 <= usize::MAX
    }
}

/// Parts joined with a separator: empty for none, otherwise the parts with
/// the separator between each neighbouring pair.
pub open spec fn join_with(parts: Seq<Seq<char>>, sep: Seq<char>) -> Seq<char>
    decreases parts.len(),
{
    if parts.len() == 0 {
        Seq::empty()
    } else if parts.len() == 1 {
        parts[0]
    } else {
        join_with(parts.drop_last(), sep) + sep + parts.last()
    }
}

/// The placeholder list `$1, ..., $n`, as parts.
pub open spec fn placeholder_parts(n: nat) -> Seq<Seq<char>> {
    Seq::new(n, |i: int| "$"@ + dec_digits((i + 1) as nat))
}

/// The `SET` parts `col = $k`, with `$1` reserved for the id.
pub open spec fn set_parts(s: &TableSchema) -> Seq<Seq<char>> {
    Seq::new(
        s.update_columns@.len(),
        |k: int| cols_of(s)[s.update_columns@[k] as int] + " = $"@ + dec_digits((k + 2) as nat),
    )
}

/// The search parts `col ILIKE $1`.
pub open spec fn ilike_parts(s: &TableSchema) -> Seq<Seq<char>> {
    Seq::new(
        s.search_columns@.len(),
        |k: int| cols_of(s)[s.search_columns@[k] as int] + " ILIKE $1"@,
    )
}

/// The names of the create columns, as parts.
pub open spec fn create_name_parts(s: &TableSchema) -> Seq<Seq<char>> {
    Seq::new(s.create_columns@.len(), |k: int| cols_of(s)[s.create_columns@[k] as int])
}

pub open spec fn insert_query_spec(s: &TableSchema) -> Seq<char> {
    "INSERT INTO "@ + s.table_name@ + " ("@ + join_with(create_name_parts(s), ", "@) + ") VALUES ("@
        + join_with(placeholder_parts(s.create_columns@.len()), ", "@) + ") RETURNING *"@
}

pub open spec fn select_query_spec(s: &TableSchema) -> Seq<char> {
    "SELECT * FROM "@ + s.table_name@ + " WHERE id = $1"@
}

pub open spec fn update_query_spec(s: &TableSchema) -> Seq<char> {
    "UPDATE "@ + s.table_name@ + " SET "@ + join_with(set_parts(s), ", "@)
        + " WHERE id = $1 RETURNING *"@
}

pub open spec fn delete_query_spec(s: &TableSchema) -> Seq<char> {
    "DELETE FROM "@ + s.table_name@ + " WHERE id = $1"@
}

pub open spec fn where_clause_spec(s: &TableSchema) -> Seq<char> {
    join_with(ilike_parts(s), " OR "@)
}

pub open spec fn count_query_spec(s: &TableSchema) -> Seq<char> {
    "SELECT COUNT(*) FROM "@ + s.table_name@ + " WHERE "@ + where_clause_spec(s)
}

/// The main list query for a validated sort column (`sort` is an identifier
/// out of the allow-list) and direction.
pub open spec fn list_query_spec(s: &TableSchema, sort: Seq<char>, ascending: bool) -> Seq<char> {
    "SELECT * FROM "@ + s.table_name@ + " WHERE "@ + where_clause_spec(s) + " ORDER BY "@ + sort + (
    if ascending {
        " ASC"@
    } else {
        " DESC"@
    }) + " LIMIT $2 OFFSET $3"@
}

// ---------------------------------------------------------------------------
// Builders.
// ---------------------------------------------------------------------------

/// `$1, ..., $n`: one placeholder for each of the n bound values.
pub fn create_placeholders(n: usize) -> (r: String)
    requires
        n + 2 <= usize::MAX,
    ensures
        r@ == join_with(placeholder_parts(n as nat), ", "@),
{
    let mut acc = String::new();
    let mut i: usize = 0;
    while i < n
        invariant
            0 <= i <= n,
            n + 2 <= usize::MAX,
            acc@ == join_with(placeholder_parts(n as nat).take(i as int), ", "@),
        decreases n - i,
    {
        if i > 0 {
            acc.append(", ");
        }
        acc.append("$");
        let digits = usize_to_string(i + 1);
        acc.append(digits.as_str());
        proof {
            let parts = placeholder_parts(n as nat);
            assert(parts[i as int] == "$"@ + dec_digits((i + 1) as nat));
            assert(parts.take(i + 1).drop_last() =~= parts.take(i as int));
            assert(parts.take(i + 1).last() == parts[i as int]);
            assert(acc@ =~= join_with(parts.take(i + 1), ", "@));
        }
        i = i + 1;
    }
    proof {
        assert(placeholder_parts(n as nat).take(n as int) =~= placeholder_parts(n as nat));
    }
    acc
}

/// Joins ready-made parts with a separator.
fn join_strings(parts: &Vec<String>, sep: &str) -> (r: String)
    ensures
        r@ == join_with(parts@.map_values(|p: String| p@), sep@),
{
    let ghost spec_parts = parts@.map_values(|p: String| p@);
    let mut acc = String::new();
    let mut i: usize = 0;
    while i < parts.len()
        invariant
            0 <= i <= parts@.len(),
            spec_parts == parts@.map_values(|p: String| p@),
            acc@ == join_with(spec_parts.take(i as int), sep@),
        decreases parts@.len() - i,
    {
        if i > 0 {
            acc.append(sep);
        }
        acc.append(parts[i].as_str());
        proof {
            assert(spec_parts[i as int] == parts@[i as int]@);
            assert(spec_parts.take(i + 1).drop_last() =~= spec_parts.take(i as int));
            assert(spec_parts.take(i + 1).last() == spec_parts[i as int]);
            assert(acc@ =~= join_with(spec_parts.take(i + 1), sep@));
        }
        i = i + 1;
    }
    proof {
        assert(spec_parts.take(parts@.len() as int) =~= spec_parts);
    }
    acc
}

/// `INSERT INTO t (c1, ...) VALUES ($1, ...) RETURNING *`, with the create
/// columns in declared order.
pub fn insert_query(schema: &TableSchema) -> (r: String)
    requires
        schema.wf(),
    ensures
        r@ == insert_query_spec(schema),
{
    let mut names: Vec<String> = Vec::new();
    let mut k: usize = 0;
    while k < schema.create_columns.len()
        invariant
            schema.wf(),
            0 <= k <= schema.create_columns@.len(),
            names@.len() == k,
            forall|m: int| 0 <= m < k ==> (#[trigger] names@[m])@ == create_name_parts(schema)[m],
        decreases schema.create_columns@.len() - k,
    {
        let c = schema.create_columns[k];
        names.push(schema.columns[c].clone());
        proof {
            assert(names@[k as int]@ == cols_of(schema)[schema.create_columns@[k as int] as int]);
        }
        k = k + 1;
    }
    proof {
        assert(names@.map_values(|p: String| p@) =~= create_name_parts(schema));
    }
    let joined = join_strings(&names, ", ");
    let placeholders = create_placeholders(schema.create_columns.len());
    let mut q = String::from_str("INSERT INTO ");
    q.append(schema.table_name.as_str());
    q.append(" (");
    q.append(joined.as_str());
    q.append(") VALUES (");
    q.append(placeholders.as_str());
    q.append(") RETURNING *");
    proof {
        assert(q@ =~= insert_query_spec(schema));
    }
    q
}

/// `SELECT * FROM t WHERE id = $1`.
pub fn select_query(schema: &TableSchema) -> (r: String)
    requires
        schema.wf(),
    ensures
        r@ == select_query_spec(schema),
{
    let mut q = String::from_str("SELECT * FROM ");
    q.append(schema.table_name.as_str());
    q.append(" WHERE id = $1");
    proof {
        assert(q@ =~= select_query_spec(schema));
    }
    q
}

/// `UPDATE t SET c1 = $2, ... WHERE id = $1 RETURNING *`: the id binds
/// first, then the update columns in declared order.
pub fn update_query(schema: &TableSchema) -> (r: String)
    requires
        schema.wf(),
    ensures
        r@ == update_query_spec(schema),
{
    let mut parts: Vec<String> = Vec::new();
    let mut k: usize = 0;
    while k < schema.update_columns.len()
        invariant
            schema.wf(),
            0 <= k <= schema.update_columns@.len(),
            parts@.len() == k,
            forall|m: int| 0 <= m < k ==> (#[trigger] parts@[m])@ == set_parts(schema)[m],
        decreases schema.update_columns@.len() - k,
    {
        let c = schema.update_columns[k];
        let mut part = schema.columns[c].clone();
        part.append(" = $");
        let digits = usize_to_string(k + 2);
        part.append(digits.as_str());
        proof {
            assert(part@ =~= set_parts(schema)[k as int]);
        }
        parts.push(part);
        k = k + 1;
    }
    proof {
        assert(parts@.map_values(|p: String| p@) =~= set_parts(schema));
    }
    let joined = join_strings(&parts, ", ");
    let mut q = String::from_str("UPDATE ");
    q.append(schema.table_name.as_str());
    q.append(" SET ");
    q.append(joined.as_str());
    q.append(" WHERE id = $1 RETURNING *");
    proof {
        assert(q@ =~= update_query_spec(schema));
    }
    q
}

/// `DELETE FROM t WHERE id = $1`.
pub fn delete_query(schema: &TableSchema) -> (r: String)
    requires
        schema.wf(),
    ensures
        r@ == delete_query_spec(schema),
{
    let mut q = String::from_str("DELETE FROM ");
    q.append(schema.table_name.as_str());
    q.append(" WHERE id = $1");
    proof {
        assert(q@ =~= delete_query_spec(schema));
    }
    q
}

fn where_clause(schema: &TableSchema) -> (r: String)
    requires
        schema.wf(),
    ensures
        r@ == where_clause_spec(schema),
{
    let mut parts: Vec<String> = Vec::new();
    let mut k: usize = 0;
    while k < schema.search_columns.len()
        invariant
            schema.wf(),
            0 <= k <= schema.search_columns@.len(),
            parts@.len() == k,
            forall|m: int| 0 <= m < k ==> (#[trigger] parts@[m])@ == ilike_parts(schema)[m],
        decreases schema.search_columns@.len() - k,
    {
        let c = schema.search_columns[k];
        let mut part = schema.columns[c].clone();
        part.append(" ILIKE $1");
        proof {
            assert(part@ =~= ilike_parts(schema)[k as int]);
        }
        parts.push(part);
        k = k + 1;
    }
    proof {
        assert(parts@.map_values(|p: String| p@) =~= ilike_parts(schema));
    }
    join_strings(&parts, " OR ")
}

/// `SELECT COUNT(*) FROM t WHERE c1 ILIKE $1 OR ...`.
pub fn count_query(schema: &TableSchema) -> (r: String)
    requires
        schema.wf(),
    ensures
        r@ == count_query_spec(schema),
{
    let clause = where_clause(schema);
    let mut q = String::from_str("SELECT COUNT(*) FROM ");
    q.append(schema.table_name.as_str());
    q.append(" WHERE ");
    q.append(clause.as_str());
    proof {
        assert(q@ =~= count_query_spec(schema));
    }
    q
}

/// Resolves a requested sort column against the allow-list: the id column,
/// or one of the schema's declared columns. Anything else is refused, so no
/// unvalidated text ever reaches the query.
pub fn resolve_sort_column(schema: &TableSchema, sort_by: &String) -> (r: Option<Option<usize>>)
    requires
        schema.wf(),
    ensures
        match r {
            Some(None) => sort_by@ == "id"@,
            Some(Some(c)) => c < schema.columns@.len() && schema.columns@[c as int]@ == sort_by@,
            None => {
                &&& sort_by@ != "id"@
                &&& forall|i: int|
                    0 <= i < schema.columns@.len() ==> (#[trigger] schema.columns@[i])@ != sort_by@
            },
        },
{
    let id_name = String::from_str("id");
    if sort_by.eq(&id_name) {
        return Some(None);
    }
    let mut i: usize = 0;
    while i < schema.columns.len()
        invariant
            0 <= i <= schema.columns@.len(),
            forall|m: int| 0 <= m < i ==> (#[trigger] schema.columns@[m])@ != sort_by@,
        decreases schema.columns@.len() - i,
    {
        if schema.columns[i].eq(sort_by) {
            return Some(Some(i));
        }
        i = i + 1;
    }
    None
}

/// `SELECT * FROM t WHERE ... ORDER BY s ASC|DESC LIMIT $2 OFFSET $3`, or
/// `None` when the requested sort column is not in the allow-list.
pub fn list_query(schema: &TableSchema, sort_by: &String, ascending: bool) -> (r: Option<String>)
    requires
        schema.wf(),
    ensures
        match r {
            Some(q) => (sort_by@ == "id"@ || exists|i: int|
                0 <= i < schema.columns@.len() && (#[trigger] schema.columns@[i])@ == sort_by@) && q@
                == list_query_spec(schema, sort_by@, ascending),
            None => sort_by@ != "id"@ && forall|i: int|
                0 <= i < schema.columns@.len() ==> (#[trigger] schema.columns@[i])@ != sort_by@,
        },
{
    let resolved = resolve_sort_column(schema, sort_by);
    match resolved {
        Some(_) => {
            let clause = where_clause(schema);
            let mut q = String::from_str("SELECT * FROM ");
            q.append(schema.table_name.as_str());
            q.append(" WHERE ");
            q.append(clause.as_str());
            q.append(" ORDER BY ");
            q.append(sort_by.as_str());
            if ascending {
                q.append(" ASC");
            } else {
                q.append(" DESC");
            }
            q.append(" LIMIT $2 OFFSET $3");
            proof {
                assert(q@ =~= list_query_spec(schema, sort_by@, ascending));
            }
            Some(q)
        },
        None => None,
    }
}


/// Checks a string against the safe-identifier rule; only checked strings
/// are ever interpolated into statement text.
pub fn check_sql_ident(s: &str) -> (r: bool)
    ensures
        r == is_sql_ident(s@),
{
    let len = s.unicode_len();
    if len == 0 {
        return false;
    }
    let first = s.get_char(0);
    if ('0' as u32) <= (first as u32) && (first as u32) <= ('9' as u32) {
        return false;
    }
    let mut i: usize = 0;
    while i < len
        invariant
            len == s@.len(),
            0 <= i <= len,
            forall|j: int|
                0 <= j < i ==> (crate::validators::is_lower_char(#[trigger] s@[j])
                    || crate::validators::is_digit_char(s@[j]) || s@[j] == '_'),
        decreases len - i,
    {
        let c = s.get_char(i);
        let cu = c as u32;
        let lower = 97 <= cu && cu <= 122;
        let digit = 48 <= cu && cu <= 57;
        if !(lower || digit || c == '_') {
            return false;
        }
        i = i + 1;
    }
    true
}

} // verus!
