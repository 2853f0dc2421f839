use vstd::prelude::*;

use crate::error::{AppError, AppResult};
use crate::model::{
    effective_page, effective_per_page, ceil_div, List, ListOptions, Paginator, User, UserForCreate,
    UserForUpdate,
};
use crate::sql::{is_sql_ident, TableSchema};
use crate::store::{
    apply_patch, page_slice, row_matches, row_wf, rows_sorted, Row, RowView, Table, Value,
    ValueView,
};

verus! {

/// The column layout of the users table, after the id column.
pub open spec fn users_columns() -> Seq<Seq<char>> {
    seq![
        "name"@,
        "email"@,
        "email_verified_at"@,
        "password"@,
        "customer_id"@,
        "updated_at"@,
        "created_at"@,
        "remember_token"@,
    ]
}

/// The capability record that binds the user entity to its table.
pub fn users_schema() -> (r: TableSchema)
    ensures
        r.wf(),
        r.table_name@ == "users"@,
        r.columns@.map_values(|c: String| c@) == users_columns(),
        r.columns@.len() == 8,
        r.create_columns@ == seq![0usize, 1usize, 3usize],
        r.update_columns@ == seq![0usize, 1usize, 3usize, 4usize],
        r.search_columns@ == seq![0usize, 1usize],
{
    let mut columns: Vec<String> = Vec::new();
    columns.push(String::from_str("name"));
    columns.push(String::from_str("email"));
    columns.push(String::from_str("email_verified_at"));
    columns.push(String::from_str("password"));
    columns.push(String::from_str("customer_id"));
    columns.push(String::from_str("updated_at"));
    columns.push(String::from_str("created_at"));
    columns.push(String::from_str("remember_token"));
    let create_columns: Vec<usize> = vec![0, 1, 3];
    let update_columns: Vec<usize> = vec![0, 1, 3, 4];
    let search_columns: Vec<usize> = vec![0, 1];
    let r = TableSchema {
        table_name: String::from_str("users"),
        columns,
        create_columns,
        update_columns,
        search_columns,
    };
    proof {
        assert(r.columns@.map_values(|c: String| c@) =~= users_columns());
        assert(r.create_columns@ =~= seq![0usize, 1usize, 3usize]);
        assert(r.update_columns@ =~= seq![0usize, 1usize, 3usize, 4usize]);
        assert(r.search_columns@ =~= seq![0usize, 1usize]);
        assert(is_sql_ident("users"@)) by {
            reveal_strlit("users");
        }
        assert(is_sql_ident("name"@)) by {
            reveal_strlit("name");
        }
        assert(is_sql_ident("email"@)) by {
            reveal_strlit("email");
        }
        assert(is_sql_ident("email_verified_at"@)) by {
            reveal_strlit("email_verified_at");
        }
        assert(is_sql_ident("password"@)) by {
            reveal_strlit("password");
        }
        assert(is_sql_ident("customer_id"@)) by {
            reveal_strlit("customer_id");
        }
        assert(is_sql_ident("updated_at"@)) by {
            reveal_strlit("updated_at");
        }
        assert(is_sql_ident("created_at"@)) by {
            reveal_strlit("created_at");
        }
        assert(is_sql_ident("remember_token"@)) by {
            reveal_strlit("remember_token");
        }
    }
    r
}

/// Whether a stored row has the shape of a user record.
pub open spec fn user_row_ok(r: RowView) -> bool {
    &&& r.fields.len() == 8
    &&& r.fields[0] is Text
    &&& r.fields[1] is Text
    &&& (r.fields[2] is Int || r.fields[2] is Null)
    &&& r.fields[3] is Text
    &&& (match r.fields[4] {
        ValueView::Int(x) => i32::MIN <= x <= i32::MAX,
        ValueView::Null => true,
        _ => false,
    })
    &&& (r.fields[5] is Int || r.fields[5] is Null)
    &&& (r.fields[6] is Int || r.fields[6] is Null)
    &&& (r.fields[7] is Text || r.fields[7] is Null)
}

/// The user entity a stored row denotes, field for field.
pub open spec fn user_matches_row(u: User, r: RowView) -> bool {
    &&& r.id == u.id as int
    &&& r.fields.len() == 8
    &&& r.fields[0] == ValueView::Text(u.name@)
    &&& r.fields[1] == ValueView::Text(u.email@)
    &&& r.fields[2] == (match u.email_verified_at {
        Some(t) => ValueView::Int(t as int),
        None => ValueView::Null,
    })
    &&& r.fields[3] == ValueView::Text(u.password@)
    &&& r.fields[4] == (match u.customer_id {
        Some(c) => ValueView::Int(c as int),
        None => ValueView::Null,
    })
    &&& r.fields[5] == (match u.updated_at {
        Some(t) => ValueView::Int(t as int),
        None => ValueView::Null,
    })
    &&& r.fields[6] == (match u.created_at {
        Some(t) => ValueView::Int(t as int),
        None => ValueView::Null,
    })
    &&& r.fields[7] == (match u.remember_token {
        Some(s) => ValueView::Text(s@),
        None => ValueView::Null,
    })
}

/// The row a freshly created user occupies: the bound create columns, the
/// rest null (the store model leaves server-side defaults empty).
pub open spec fn user_create_row(name: Seq<char>, email: Seq<char>, hash: Seq<char>, id: int) -> RowView {
    RowView {
        id,
        fields: seq![
            ValueView::Text(name),
            ValueView::Text(email),
            ValueView::Null,
            ValueView::Text(hash),
            ValueView::Null,
            ValueView::Null,
            ValueView::Null,
            ValueView::Null,
        ],
    }
}

/// The patch an update binds: every update column is set, absent options
/// set the column null.
pub open spec fn user_update_patch(data: UserForUpdate) -> Seq<Option<ValueView>> {
    seq![
        Some(
            match data.name {
                Some(s) => ValueView::Text(s@),
                None => ValueView::Null,
            },
        ),
        Some(
            match data.email {
                Some(s) => ValueView::Text(s@),
                None => ValueView::Null,
            },
        ),
        None,
        Some(
            match data.hashed_password {
                Some(s) => ValueView::Text(s@),
                None => ValueView::Null,
            },
        ),
        Some(
            match data.customer_id {
                Some(s) => ValueView::Text(s@),
                None => ValueView::Null,
            },
        ),
        None,
        None,
        None,
    ]
}

/// Reads a user entity off a stored row; `None` when the row does not have
/// the shape of a user record.
pub fn user_from_row(row: &Row) -> (r: Option<User>)
    ensures
        match r {
            Some(u) => user_row_ok(row@) && user_matches_row(u, row@),
            None => !user_row_ok(row@),
        },
{
    if row.fields.len() != 8 {
        return None;
    }
    let name = match &row.fields[0] {
        Value::Text(s) => s.clone(),
        _ => {
            return None;
        },
    };
    let email = match &row.fields[1] {
        Value::Text(s) => s.clone(),
        _ => {
            return None;
        },
    };
    let email_verified_at = match &row.fields[2] {
        Value::Int(t) => Some(*t),
        Value::Null => None,
        _ => {
            return None;
        },
    };
    let password = match &row.fields[3] {
        Value::Text(s) => s.clone(),
        _ => {
            return None;
        },
    };
    let customer_id = match &row.fields[4] {
        Value::Int(c) => {
            if *c < i32::MIN as i64 || *c > i32::MAX as i64 {
                return None;
            }
            Some(*c as i32)
        },
        Value::Null => None,
        _ => {
            return None;
        },
    };
    let updated_at = match &row.fields[5] {
        Value::Int(t) => Some(*t),
        Value::Null => None,
        _ => {
            return None;
        },
    };
    let created_at = match &row.fields[6] {
        Value::Int(t) => Some(*t),
        Value::Null => None,
        _ => {
            return None;
        },
    };
    let remember_token = match &row.fields[7] {
        Value::Text(s) => Some(s.clone()),
        Value::Null => None,
        _ => {
            return None;
        },
    };
    Some(
        User {
            id: row.id,
            name,
            email,
            email_verified_at,
            password,
            customer_id,
            updated_at,
            created_at,
            remember_token,
        },
    )
}

impl User {
    /// Inserts a new user. The store's unique-email constraint is part of
    /// the model: a duplicate email is the store failure the caller maps to
    /// a generic response.
    pub fn create(table: &mut Table, data: UserForCreate) -> (r: AppResult<User>)
        requires
            old(table).wf(),
            old(table).ncols == 8,
        ensures
            final(table).wf(),
            final(table).ncols == 8,
            match r {
                Ok(u) => {
                    &&& old(table).next_id < i32::MAX
                    &&& forall|i: int|
                        0 <= i < old(table)@.len() ==> (#[trigger] old(table)@[i]).fields[1]
                            != ValueView::Text(data.email@)
                    &&& u.id == old(table).next_id
                    &&& u.name@ == data.name@
                    &&& u.email@ == data.email@
                    &&& u.password@ == data.hashed_password@
                    &&& u.email_verified_at is None
                    &&& u.customer_id is None
                    &&& u.updated_at is None
                    &&& u.created_at is None
                    &&& u.remember_token is None
                    &&& final(table)@ == old(table)@.push(
                        user_create_row(
                            data.name@,
                            data.email@,
                            data.hashed_password@,
                            old(table).next_id as int,
                        ),
                    )
                    &&& final(table).next_id == old(table).next_id + 1
                },
                Err(e) => {
                    &&& e is DatabaseError
                    &&& final(table)@ == old(table)@
                    &&& final(table).next_id == old(table).next_id
                    &&& (old(table).next_id == i32::MAX || exists|i: int|
                        0 <= i < old(table)@.len() && (#[trigger] old(table)@[i]).fields[1]
                            == ValueView::Text(data.email@))
                },
            },
    {
        if let Some(_) = table.find_by_text(1, &data.email) {
            return Err(AppError::DatabaseError);
        }
        if table.next_id == i32::MAX {
            return Err(AppError::DatabaseError);
        }
        let mut values: Vec<Value> = Vec::new();
        values.push(Value::Text(data.name.clone()));
        values.push(Value::Text(data.email.clone()));
        values.push(Value::Null);
        values.push(Value::Text(data.hashed_password.clone()));
        values.push(Value::Null);
        values.push(Value::Null);
        values.push(Value::Null);
        values.push(Value::Null);
        let id = table.next_id;
        let row = table.create(values);
        proof {
            assert(row@.fields =~= user_create_row(
                data.name@,
                data.email@,
                data.hashed_password@,
                id as int,
            ).fields);
            assert(row@ == user_create_row(
                data.name@,
                data.email@,
                data.hashed_password@,
                id as int,
            ));
        }
        Ok(
            User {
                id,
                name: data.name,
                email: data.email,
                email_verified_at: None,
                password: data.hashed_password,
                customer_id: None,
                updated_at: None,
                created_at: None,
                remember_token: None,
            },
        )
    }

    /// Looks a user up by id: the explicit not-found error is distinct from
    /// a malformed stored row, which is a store failure.
    pub fn get(table: &Table, id: i32) -> (r: AppResult<User>)
        requires
            table.wf(),
            table.ncols == 8,
        ensures
            match r {
                Ok(u) => exists|i: int|
                    0 <= i < table@.len() && (#[trigger] table@[i]).id == id && user_row_ok(
                        table@[i],
                    ) && user_matches_row(u, table@[i]),
                Err(e) => {
                    ||| (e is NotFound && forall|i: int|
                        0 <= i < table@.len() ==> (#[trigger] table@[i]).id != id)
                    ||| (e is DatabaseError && exists|i: int|
                        0 <= i < table@.len() && (#[trigger] table@[i]).id == id && !user_row_ok(
                            table@[i],
                        ))
                },
            },
    {
        match table.get(id) {
            Some(row) => match user_from_row(row) {
                Some(u) => Ok(u),
                None => Err(AppError::DatabaseError),
            },
            None => Err(AppError::NotFound),
        }
    }

    /// Updates the update columns of the user's row; absent options set the
    /// column null, as binding them does. Not-found when no row has the id.
    pub fn update(table: &mut Table, id: i32, data: UserForUpdate) -> (r: AppResult<User>)
        requires
            old(table).wf(),
            old(table).ncols == 8,
        ensures
            final(table).wf(),
            final(table).ncols == 8,
            final(table).next_id == old(table).next_id,
            match r {
                Ok(u) => exists|i: int|
                    {
                        let new_row = RowView {
                            id: id as int,
                            fields: apply_patch(
                                old(table)@[i].fields,
                                user_update_patch(data),
                            ),
                        };
                        &&& 0 <= i < old(table)@.len()
                        &&& (#[trigger] old(table)@[i]).id == id
                        &&& user_row_ok(new_row)
                        &&& user_matches_row(u, new_row)
                        &&& final(table)@ == old(table)@.update(i, new_row)
                    },
                Err(e) => {
                    ||| (e is NotFound && final(table)@ == old(table)@ && forall|i: int|
                        0 <= i < old(table)@.len() ==> (#[trigger] old(table)@[i]).id != id)
                    ||| (e is DatabaseError && exists|i: int|
                        {
                            let new_row = RowView {
                                id: id as int,
                                fields: apply_patch(
                                    old(table)@[i].fields,
                                    user_update_patch(data),
                                ),
                            };
                            &&& 0 <= i < old(table)@.len()
                            &&& (#[trigger] old(table)@[i]).id == id
                            &&& !user_row_ok(new_row)
                            &&& final(table)@ == old(table)@.update(i, new_row)
                        })
                },
            },
    {
        let mut patch: Vec<Option<Value>> = Vec::new();
        patch.push(
            Some(
                match &data.name {
                    Some(s) => Value::Text(s.clone()),
                    None => Value::Null,
                },
            ),
        );
        patch.push(
            Some(
                match &data.email {
                    Some(s) => Value::Text(s.clone()),
                    None => Value::Null,
                },
            ),
        );
        patch.push(None);
        patch.push(
            Some(
                match &data.hashed_password {
                    Some(s) => Value::Text(s.clone()),
                    None => Value::Null,
                },
            ),
        );
        patch.push(
            Some(
                match &data.customer_id {
                    Some(s) => Value::Text(s.clone()),
                    None => Value::Null,
                },
            ),
        );
        patch.push(None);
        patch.push(None);
        patch.push(None);
        proof {
            assert(patch@.map_values(
                |o: Option<Value>|
                    match o {
                        Some(v) => Some(v@),
                        None => None,
                    },
            ) =~= user_update_patch(data));
        }
        match table.update(id, patch) {
            Some(row) => match user_from_row(&row) {
                Some(u) => Ok(u),
                None => Err(AppError::DatabaseError),
            },
            None => Err(AppError::NotFound),
        }
    }

    /// Removes the user's row; idempotent, so an absent id still succeeds.
    pub fn delete(table: &mut Table, id: i32) -> (r: AppResult<()>)
        requires
            old(table).wf(),
            old(table).ncols == 8,
        ensures
            final(table).wf(),
            final(table).ncols == 8,
            r is Ok,
            final(table)@ == old(table)@.filter(|row: RowView| row.id != id),
    {
        table.delete(id);
        Ok(())
    }

    /// The stored id and password hash for an email. No account under the
    /// email is the not-found error the login flow maps to its uniform
    /// unauthorized response; a stored row whose password column is not
    /// text is a store failure, which the flow maps to the generic one.
    pub fn get_password_hash(table: &Table, email: &String) -> (r: AppResult<(i32, String)>)
        requires
            table.wf(),
            table.ncols == 8,
        ensures
            match r {
                Ok(p) => exists|i: int|
                    0 <= i < table@.len() && (#[trigger] table@[i]).fields[1] == ValueView::Text(
                        email@,
                    ) && table@[i].id == p.0 as int && table@[i].fields[3] == ValueView::Text(
                        p.1@,
                    ),
                Err(e) => {
                    ||| (e matches AppError::UserNotFound(em) && em@ == email@ && forall|i: int|
                        0 <= i < table@.len() ==> (#[trigger] table@[i]).fields[1]
                            != ValueView::Text(email@))
                    ||| (e is DatabaseError && exists|i: int|
                        0 <= i < table@.len() && (#[trigger] table@[i]).fields[1]
                            == ValueView::Text(email@) && !(table@[i].fields[3] is Text))
                },
            },
    {
        match table.find_by_text(1, email) {
            Some(row) => {
                if row.fields.len() != 8 {
                    proof {
                        let i = choose|i: int|
                            0 <= i < table@.len() && row@ == table@[i] && (#[trigger] table@[i]).fields[1]
                                == ValueView::Text(email@);
                        assert(row_len_is(table@[i], table.ncols as nat));
                    }
                    return Err(AppError::DatabaseError);
                }
                match &row.fields[3] {
                    Value::Text(hash) => Ok((row.id, hash.clone())),
                    _ => Err(AppError::DatabaseError),
                }
            },
            None => Err(AppError::UserNotFound(email.clone())),
        }
    }

    /// Marks the user's email verified at the given time. As the underlying
    /// statement does, it succeeds whether or not the id exists.
    pub fn set_email_verified_at(table: &mut Table, id: i32, verified_at: i64) -> (r: AppResult<()>)
        requires
            old(table).wf(),
            old(table).ncols == 8,
        ensures
            final(table).wf(),
            final(table).ncols == 8,
            r is Ok,
            (forall|i: int| 0 <= i < old(table)@.len() ==> (#[trigger] old(table)@[i]).id != id)
                ==> final(table)@ == old(table)@,
            (exists|i: int| 0 <= i < old(table)@.len() && (#[trigger] old(table)@[i]).id == id)
                ==> exists|i: int|
                {
                    &&& 0 <= i < old(table)@.len()
                    &&& (#[trigger] old(table)@[i]).id == id
                    &&& final(table)@ == old(table)@.update(
                        i,
                        RowView {
                            id: id as int,
                            fields: apply_patch(
                                old(table)@[i].fields,
                                verified_patch(verified_at as int),
                            ),
                        },
                    )
                },
    {
        let mut patch: Vec<Option<Value>> = Vec::new();
        patch.push(None);
        patch.push(None);
        patch.push(Some(Value::Int(verified_at)));
        patch.push(None);
        patch.push(None);
        patch.push(None);
        patch.push(None);
        patch.push(None);
        proof {
            assert(patch@.map_values(
                |o: Option<Value>|
                    match o {
                        Some(v) => Some(v@),
                        None => None,
                    },
            ) =~= verified_patch(verified_at as int));
        }
        let _ = table.update(id, patch);
        Ok(())
    }
}

/// The patch that email verification applies: only the timestamp column.
pub open spec fn verified_patch(verified_at: int) -> Seq<Option<ValueView>> {
    seq![
        None,
        None,
        Some(ValueView::Int(verified_at)),
        None,
        None,
        None,
        None,
        None,
    ]
}

/// A row's field count, as the table invariant fixes it.
pub open spec fn row_len_is(r: RowView, ncols: nat) -> bool {
    r.fields.len() == ncols
}


/// Everything a filter keeps was in the original sequence.
proof fn lemma_filter_subset(s: Seq<RowView>, pred: spec_fn(RowView) -> bool)
    ensures
        forall|x: RowView| #[trigger] s.filter(pred).contains(x) ==> s.contains(x),
    decreases s.len(),
{
    reveal(Seq::filter);
    if s.len() > 0 {
        let prefix = s.drop_last();
        lemma_filter_subset(prefix, pred);
        assert forall|x: RowView| #[trigger] s.filter(pred).contains(x) implies s.contains(x) by {
            let f = s.filter(pred);
            let k = choose|k: int| 0 <= k < f.len() && f[k] == x;
            let fp = prefix.filter(pred);
            if pred(s.last()) {
                assert(f == fp.push(s.last()));
                if k < fp.len() {
                    assert(fp.contains(x));
                    assert(prefix.contains(x));
                    let m = choose|m: int| 0 <= m < prefix.len() && prefix[m] == x;
                    assert(s[m] == x);
                } else {
                    assert(x == s.last());
                    assert(s[s.len() - 1] == x);
                }
            } else {
                assert(f == fp);
                assert(prefix.contains(x));
                let m = choose|m: int| 0 <= m < prefix.len() && prefix[m] == x;
                assert(s[m] == x);
            }
        }
    }
}

/// Whether a requested sort names the id column or one of the user table's
/// columns; `sc` is the resolved column.
pub open spec fn users_sort_resolution(sort_by: Option<String>, sc: Option<usize>) -> bool {
    match sort_by {
        None => sc is None,
        Some(s) => {
            ||| (s@ == "id"@ && sc is None)
            ||| (match sc {
                Some(c) => c < 8 && users_columns()[c as int] == s@,
                None => false,
            })
        },
    }
}

/// Whether a requested sort is in the allow-list at all.
pub open spec fn users_sort_allowed(sort_by: Option<String>) -> bool {
    match sort_by {
        None => true,
        Some(s) => s@ == "id"@ || exists|c: int| 0 <= c < 8 && users_columns()[c] == s@,
    }
}

/// The effective free-text query of a request.
pub open spec fn query_of(options: ListOptions) -> Seq<char> {
    match options.q {
        Some(s) => s@,
        None => Seq::<char>::empty(),
    }
}

/// The effective sort direction of a request.
pub open spec fn ascending_of(options: ListOptions) -> bool {
    match options.ascending {
        Some(b) => b,
        None => true,
    }
}


/// What a successful listing returns: the paginator consistent with the
/// matching count, and the data equal, entity for entity, to a page window
/// of some ordering of the matching rows.
pub open spec fn users_list_post(tv: Seq<RowView>, options: ListOptions, l: List<User>) -> bool {
    let q = query_of(options);
    let page = effective_page(options.page);
    let per = effective_per_page(options.per_page);
    let asc = ascending_of(options);
    &&& page >= 1
    &&& users_sort_allowed(options.sort_by)
    &&& l.pagination.current_page == page
    &&& l.pagination.per_page == per
    &&& exists|sc: Option<usize>, sorted: Seq<RowView>|
        #![trigger rows_sorted(sorted, sc, asc)]
        {
            let filtered = tv.filter(|row: RowView| row_matches(row, q, seq![0usize, 1usize]));
            let slice = page_slice(sorted, (page - 1) * per, per as int);
            &&& users_sort_resolution(options.sort_by, sc)
            &&& sorted.to_multiset() == filtered.to_multiset()
            &&& rows_sorted(sorted, sc, asc)
            &&& l.pagination.total_count == filtered.len()
            &&& l.pagination.total_pages == ceil_div(filtered.len(), per as nat)
            &&& l.data@.len() == slice.len()
            &&& forall|k: int|
                0 <= k < slice.len() ==> user_row_ok(#[trigger] slice[k]) && user_matches_row(
                    l.data@[k],
                    slice[k],
                )
        }
}

impl User {
    /// The paginated search: matching rows counted, ordered by the
    /// validated sort column, and windowed to the requested page, with the
    /// paginator consistent with the count at the moment of computation. A
    /// page of zero, a sort column outside the allow-list, a count beyond
    /// the paginator's range, or a malformed stored row is a store failure.
    #[verifier::rlimit(60)]
    pub fn list(table: &Table, options: &ListOptions) -> (r: AppResult<List<User>>)
        requires
            table.wf(),
            table.ncols == 8,
        ensures
            match r {
                Ok(l) => users_list_post(table@, *options, l),
                Err(e) => e is DatabaseError,
            },
            (effective_page(options.page) >= 1 && users_sort_allowed(options.sort_by) && table@.len()
                <= u16::MAX && (forall|i: int|
                0 <= i < table@.len() ==> user_row_ok(#[trigger] table@[i]))) ==> r is Ok,
    {
        let page = crate::model::page_of(options);
        if page == 0 {
            return Err(AppError::DatabaseError);
        }
        let per = crate::model::per_page_of(options);
        let sort_request = match &options.sort_by {
            Some(s) => s.clone(),
            None => String::from_str("id"),
        };
        proof {
            assert(match options.sort_by {
                Some(ss) => sort_request@ == ss@,
                None => sort_request@ == "id"@,
            });
        }
        let schema = users_schema();
        proof {
            assert(forall|c: int|
                0 <= c < 8 ==> (#[trigger] schema.columns@[c])@ == users_columns()[c]);
        }
        let sc = match crate::sql::resolve_sort_column(&schema, &sort_request) {
            Some(sc) => sc,
            None => {
                proof {
                    assert(options.sort_by is Some);
                    assert(!users_sort_allowed(options.sort_by)) by {
                        if users_sort_allowed(options.sort_by) {
                            let ss = options.sort_by.unwrap();
                            if ss@ != "id"@ {
                                let c = choose|c: int|
                                    0 <= c < 8 && users_columns()[c] == ss@;
                                assert(schema.columns@[c]@ == ss@);
                            }
                        }
                    }
                }
                return Err(AppError::DatabaseError);
            },
        };
        let asc = match options.ascending {
            Some(b) => b,
            None => true,
        };
        let empty_query = String::new();
        let q = match &options.q {
            Some(s) => s.as_str(),
            None => empty_query.as_str(),
        };
        proof {
            assert(forall|k: int|
                0 <= k < schema.search_columns@.len() ==> #[trigger] schema.search_columns@[k]
                    < 8);
            match sc {
                Some(c) => {
                    assert(c < 8);
                },
                None => {},
            }
        }
        let (rows, total) = table.list_rows(q, &schema.search_columns, sc, asc, page, per);
        let ghost qv = query_of(*options);
        let ghost pred = |row: RowView| row_matches(row, qv, seq![0usize, 1usize]);
        let ghost filtered = table@.filter(pred);
        proof {
            assert(schema.search_columns@ =~= seq![0usize, 1usize]);
            assert(q@ == qv);
            assert(pred == (|row: RowView| row_matches(row, q@, schema.search_columns@)));
            table@.lemma_filter_len(pred);
        }
        if total > 65535 {
            return Err(AppError::DatabaseError);
        }
        let pagination = Paginator::make(page, per, total as u16);
        let ghost sorted_w = choose|sorted: Seq<RowView>|
            {
                &&& #[trigger] sorted.to_multiset() == table@.filter(
                    |row: RowView| row_matches(row, q@, schema.search_columns@),
                ).to_multiset()
                &&& rows_sorted(sorted, sc, asc)
                &&& rows@.map_values(|row: Row| row@) == page_slice(
                    sorted,
                    (page - 1) * per,
                    per as int,
                )
            };
        proof {
            assert(sorted_w.to_multiset() == filtered.to_multiset());
            assert(rows_sorted(sorted_w, sc, asc));
            assert(rows@.map_values(|row: Row| row@) == page_slice(
                sorted_w,
                (page - 1) * per,
                per as int,
            ));
        }
        let mut data: Vec<User> = Vec::new();
        let mut j: usize = 0;
        while j < rows.len()
            invariant
                table.wf(),
                0 <= j <= rows@.len(),
                data@.len() == j,
                qv == query_of(*options),
                pred == (|row: RowView| row_matches(row, qv, seq![0usize, 1usize])),
                filtered == table@.filter(pred),
                sorted_w.to_multiset() == filtered.to_multiset(),
                1 <= page,
                1 <= per <= 1000,
                rows@.map_values(|row: Row| row@) == page_slice(
                    sorted_w,
                    (page - 1) * per,
                    per as int,
                ),
                forall|k: int|
                    0 <= k < j ==> user_row_ok((#[trigger] rows@[k])@) && user_matches_row(
                        data@[k],
                        rows@[k]@,
                    ),
            decreases rows@.len() - j,
        {
            match user_from_row(&rows[j]) {
                Some(u) => {
                    proof {
                        assert(rows@.map_values(|row: Row| row@)[j as int] == rows@[j as int]@);
                    }
                    data.push(u);
                },
                None => {
                    proof {
                        broadcast use vstd::seq_lib::group_to_multiset_ensures;

                        let slice = page_slice(sorted_w, (page - 1) * per, per as int);
                        assert(rows@.map_values(|row: Row| row@).len() == rows@.len());
                        assert(slice.len() == rows@.len());
                        assert(rows@.map_values(|row: Row| row@)[j as int] == rows@[j as int]@);
                        assert(rows@[j as int]@ == slice[j as int]);
                        let off_c = if (page - 1) * per > sorted_w.len() {
                            sorted_w.len() as int
                        } else {
                            (page - 1) * per
                        };
                        assert(slice[j as int] == sorted_w[off_c + j]);
                        assert(sorted_w.contains(rows@[j as int]@));
                        assert(filtered.to_multiset().count(rows@[j as int]@) > 0);
                        assert(filtered.contains(rows@[j as int]@));
                        lemma_filter_subset(table@, pred);
                        assert(table@.contains(rows@[j as int]@));
                        let m = choose|m: int|
                            0 <= m < table@.len() && table@[m] == rows@[j as int]@;
                        assert(!user_row_ok(table@[m]));
                    }
                    return Err(AppError::DatabaseError);
                },
            }
            j = j + 1;
        }
        let result = List { data, pagination };
        proof {
            let slice = page_slice(sorted_w, (page - 1) * per, per as int);
            assert(rows@.map_values(|row: Row| row@).len() == slice.len());
            assert forall|k: int| 0 <= k < slice.len() implies user_row_ok(#[trigger] slice[k])
                && user_matches_row(data@[k], slice[k]) by {
                assert(rows@.map_values(|row: Row| row@)[k] == rows@[k]@);
                assert(rows@[k]@ == slice[k]);
            }
            assert(forall|cc: int|
                0 <= cc < 8 ==> (#[trigger] schema.columns@[cc])@ == users_columns()[cc]);
            assert(users_sort_resolution(options.sort_by, sc)) by {
                match options.sort_by {
                    Some(ss) => {
                        assert(sort_request@ == ss@);
                        match sc {
                            Some(c) => {
                                assert(schema.columns@[c as int]@ == ss@);
                                assert(users_columns()[c as int] == ss@);
                            },
                            None => {},
                        }
                    },
                    None => {
                        match sc {
                            Some(c) => {
                                reveal_strlit("id");
                                reveal_strlit("name");
                                reveal_strlit("email");
                                reveal_strlit("email_verified_at");
                                reveal_strlit("password");
                                reveal_strlit("customer_id");
                                reveal_strlit("updated_at");
                                reveal_strlit("created_at");
                                reveal_strlit("remember_token");
                                assert(schema.columns@[c as int]@ == "id"@);
                                assert(users_columns()[c as int] == "id"@);
                                assert(users_columns()[c as int].len() == 2);
                                assert(false);
                            },
                            None => {},
                        }
                    },
                }
            }
            assert(users_sort_allowed(options.sort_by)) by {
                match options.sort_by {
                    Some(ss) => {
                        assert(sort_request@ == ss@);
                        match sc {
                            Some(c) => {
                                assert(schema.columns@[c as int]@ == ss@);
                                assert(0 <= c < 8 && users_columns()[c as int] == ss@);
                            },
                            None => {},
                        }
                    },
                    None => {},
                }
            }
            let q2 = query_of(*options);
            let filtered2 = table@.filter(
                |row: RowView| row_matches(row, q2, seq![0usize, 1usize]),
            );
            assert(filtered2 == filtered) by {
                assert((|row: RowView| row_matches(row, q2, seq![0usize, 1usize])) =~= pred);
            }
            assert(asc == ascending_of(*options));
            assert(
                {
                    let slice2 = page_slice(sorted_w, (page - 1) * per, per as int);
                    &&& users_sort_resolution(options.sort_by, sc)
                    &&& sorted_w.to_multiset() == filtered2.to_multiset()
                    &&& rows_sorted(sorted_w, sc, asc)
                    &&& result.pagination.total_count == filtered2.len()
                    &&& result.pagination.total_pages == ceil_div(filtered2.len(), per as nat)
                    &&& result.data@.len() == slice2.len()
                    &&& forall|k: int|
                        0 <= k < slice2.len() ==> user_row_ok(#[trigger] slice2[k])
                            && user_matches_row(result.data@[k], slice2[k])
                });
            assert(users_list_post(table@, *options, result));
        }
        Ok(result)
    }
}


// ---------------------------------------------------------------------------
// Roles and permissions: simple named entities over one-column tables.
// ---------------------------------------------------------------------------

/// The column layout shared by the roles and permissions tables.
pub open spec fn named_columns() -> Seq<Seq<char>> {
    seq!["name"@]
}

fn named_schema(table_name: &str) -> (r: TableSchema)
    requires
        crate::sql::is_sql_ident(table_name@),
    ensures
        r.wf(),
        r.table_name@ == table_name@,
        r.columns@.map_values(|c: String| c@) == named_columns(),
        r.columns@.len() == 1,
        r.create_columns@ == seq![0usize],
        r.update_columns@ == seq![0usize],
        r.search_columns@ == seq![0usize],
{
    let mut columns: Vec<String> = Vec::new();
    columns.push(String::from_str("name"));
    let r = TableSchema {
        table_name: String::from_str(table_name),
        columns,
        create_columns: vec![0],
        update_columns: vec![0],
        search_columns: vec![0],
    };
    proof {
        assert(r.columns@.map_values(|c: String| c@) =~= named_columns());
        assert(r.create_columns@ =~= seq![0usize]);
        assert(r.update_columns@ =~= seq![0usize]);
        assert(r.search_columns@ =~= seq![0usize]);
        assert(is_sql_ident("name"@)) by {
            reveal_strlit("name");
        }
    }
    r
}

/// The capability record of the roles table.
pub fn roles_schema() -> (r: TableSchema)
    ensures
        r.wf(),
        r.table_name@ == "roles"@,
        r.columns@.map_values(|c: String| c@) == named_columns(),
{
    proof {
        assert(is_sql_ident("roles"@)) by {
            reveal_strlit("roles");
        }
    }
    named_schema("roles")
}

/// The capability record of the permissions table.
pub fn permissions_schema() -> (r: TableSchema)
    ensures
        r.wf(),
        r.table_name@ == "permissions"@,
        r.columns@.map_values(|c: String| c@) == named_columns(),
{
    proof {
        assert(is_sql_ident("permissions"@)) by {
            reveal_strlit("permissions");
        }
    }
    named_schema("permissions")
}

/// Whether a stored row has the shape of a named entity.
pub open spec fn named_row_ok(r: RowView) -> bool {
    &&& r.fields.len() == 1
    &&& r.fields[0] is Text
}

/// The named entity a stored row denotes.
pub open spec fn named_matches_row(id: int, name: Seq<char>, r: RowView) -> bool {
    &&& r.id == id
    &&& r.fields =~= seq![ValueView::Text(name)]
}

fn named_create(table: &mut Table, name: String) -> (r: AppResult<(i32, String)>)
    requires
        old(table).wf(),
        old(table).ncols == 1,
    ensures
        final(table).wf(),
        final(table).ncols == 1,
        match r {
            Ok(p) => {
                &&& old(table).next_id < i32::MAX
                &&& forall|i: int|
                    0 <= i < old(table)@.len() ==> (#[trigger] old(table)@[i]).fields[0]
                        != ValueView::Text(name@)
                &&& p.0 == old(table).next_id
                &&& p.1@ == name@
                &&& final(table)@ == old(table)@.push(
                    RowView { id: old(table).next_id as int, fields: seq![ValueView::Text(name@)] },
                )
            },
            Err(e) => {
                &&& e is DatabaseError
                &&& final(table)@ == old(table)@
                &&& (old(table).next_id == i32::MAX || exists|i: int|
                    0 <= i < old(table)@.len() && (#[trigger] old(table)@[i]).fields[0]
                        == ValueView::Text(name@))
            },
        },
{
    if let Some(_) = table.find_by_text(0, &name) {
        return Err(AppError::DatabaseError);
    }
    if table.next_id == i32::MAX {
        return Err(AppError::DatabaseError);
    }
    let mut values: Vec<Value> = Vec::new();
    values.push(Value::Text(name.clone()));
    let id = table.next_id;
    let row = table.create(values);
    proof {
        assert(row@.fields =~= seq![ValueView::Text(name@)]);
        assert(row@ == RowView { id: id as int, fields: seq![ValueView::Text(name@)] });
    }
    Ok((id, name))
}

fn named_get(table: &Table, id: i32) -> (r: AppResult<(i32, String)>)
    requires
        table.wf(),
        table.ncols == 1,
    ensures
        match r {
            Ok(p) => p.0 == id && exists|i: int|
                0 <= i < table@.len() && (#[trigger] table@[i]).id == id && named_row_ok(table@[i])
                    && named_matches_row(id as int, p.1@, table@[i]),
            Err(e) => {
                ||| (e is NotFound && forall|i: int|
                    0 <= i < table@.len() ==> (#[trigger] table@[i]).id != id)
                ||| (e is DatabaseError && exists|i: int|
                    0 <= i < table@.len() && (#[trigger] table@[i]).id == id && !named_row_ok(
                        table@[i],
                    ))
            },
        },
{
    match table.get(id) {
        Some(row) => {
            if row.fields.len() != 1 {
                return Err(AppError::DatabaseError);
            }
            match &row.fields[0] {
                Value::Text(name) => {
                    proof {
                        let i = choose|i: int|
                            0 <= i < table@.len() && (#[trigger] table@[i]).id == id && row@
                                == table@[i];
                        assert(table@[i].fields =~= seq![ValueView::Text(name@)]);
                    }
                    Ok((row.id, name.clone()))
                },
                _ => Err(AppError::DatabaseError),
            }
        },
        None => Err(AppError::NotFound),
    }
}

fn named_update(table: &mut Table, id: i32, name: String) -> (r: AppResult<(i32, String)>)
    requires
        old(table).wf(),
        old(table).ncols == 1,
    ensures
        final(table).wf(),
        final(table).ncols == 1,
        match r {
            Ok(p) => {
                &&& p.0 == id
                &&& p.1@ == name@
                &&& exists|i: int|
                    {
                        &&& 0 <= i < old(table)@.len()
                        &&& (#[trigger] old(table)@[i]).id == id
                        &&& final(table)@ == old(table)@.update(
                            i,
                            RowView { id: id as int, fields: seq![ValueView::Text(name@)] },
                        )
                    }
            },
            Err(e) => {
                &&& e is NotFound
                &&& final(table)@ == old(table)@
                &&& forall|i: int| 0 <= i < old(table)@.len() ==> (#[trigger] old(table)@[i]).id != id
            },
        },
{
    let mut patch: Vec<Option<Value>> = Vec::new();
    patch.push(Some(Value::Text(name.clone())));
    proof {
        assert(patch@.map_values(
            |o: Option<Value>|
                match o {
                    Some(v) => Some(v@),
                    None => None,
                },
        ) =~= seq![Some(ValueView::Text(name@))]);
    }
    match table.update(id, patch) {
        Some(row) => {
            proof {
                let i = choose|i: int|
                    {
                        &&& 0 <= i < old(table)@.len()
                        &&& (#[trigger] old(table)@[i]).id == id
                        &&& row@.id == id
                        &&& row@.fields == apply_patch(
                            old(table)@[i].fields,
                            seq![Some(ValueView::Text(name@))],
                        )
                        &&& final(table)@ == old(table)@.update(i, row@)
                    };
                assert(row_wf(old(table)@[i], 1, old(table).next_id as int));
                assert(row@.fields =~= seq![ValueView::Text(name@)]);
                assert(row@ == RowView { id: id as int, fields: seq![ValueView::Text(name@)] });
            }
            Ok((id, name))
        },
        None => Err(AppError::NotFound),
    }
}

impl crate::model::Role {
    /// Inserts a role; its name is unique in the store.
    pub fn create(table: &mut Table, data: crate::model::RoleForCreate) -> (r: AppResult<
        crate::model::Role,
    >)
        requires
            old(table).wf(),
            old(table).ncols == 1,
        ensures
            final(table).wf(),
            final(table).ncols == 1,
            match r {
                Ok(role) => {
                    &&& role.id == old(table).next_id
                    &&& role.name@ == data.name@
                    &&& final(table)@ == old(table)@.push(
                        RowView {
                            id: old(table).next_id as int,
                            fields: seq![ValueView::Text(data.name@)],
                        },
                    )
                },
                Err(e) => {
                    &&& e is DatabaseError
                    &&& final(table)@ == old(table)@
                    &&& (old(table).next_id == i32::MAX || exists|i: int|
                        0 <= i < old(table)@.len() && (#[trigger] old(table)@[i]).fields[0]
                            == ValueView::Text(data.name@))
                },
            },
    {
        let (id, name) = match named_create(table, data.name) {
            Ok(p) => p,
            Err(e) => {
                return Err(e);
            },
        };
        Ok(crate::model::Role { id, name })
    }

    /// Looks a role up by id.
    pub fn get(table: &Table, id: i32) -> (r: AppResult<crate::model::Role>)
        requires
            table.wf(),
            table.ncols == 1,
        ensures
            match r {
                Ok(role) => role.id == id && exists|i: int|
                    0 <= i < table@.len() && (#[trigger] table@[i]).id == id && named_matches_row(
                        id as int,
                        role.name@,
                        table@[i],
                    ),
                Err(e) => {
                    ||| (e is NotFound && forall|i: int|
                        0 <= i < table@.len() ==> (#[trigger] table@[i]).id != id)
                    ||| (e is DatabaseError && exists|i: int|
                        0 <= i < table@.len() && (#[trigger] table@[i]).id == id && !named_row_ok(
                            table@[i],
                        ))
                },
            },
    {
        let (id, name) = match named_get(table, id) {
            Ok(p) => p,
            Err(e) => {
                return Err(e);
            },
        };
        Ok(crate::model::Role { id, name })
    }

    /// Renames a role.
    pub fn update(table: &mut Table, id: i32, data: crate::model::RoleForCreate) -> (r: AppResult<
        crate::model::Role,
    >)
        requires
            old(table).wf(),
            old(table).ncols == 1,
        ensures
            final(table).wf(),
            final(table).ncols == 1,
            match r {
                Ok(role) => {
                    &&& role.id == id
                    &&& role.name@ == data.name@
                    &&& exists|i: int|
                        {
                            &&& 0 <= i < old(table)@.len()
                            &&& (#[trigger] old(table)@[i]).id == id
                            &&& final(table)@ == old(table)@.update(
                                i,
                                RowView {
                                    id: id as int,
                                    fields: seq![ValueView::Text(data.name@)],
                                },
                            )
                        }
                },
                Err(e) => {
                    &&& e is NotFound
                    &&& final(table)@ == old(table)@
                    &&& forall|i: int|
                        0 <= i < old(table)@.len() ==> (#[trigger] old(table)@[i]).id != id
                },
            },
    {
        let (id, name) = match named_update(table, id, data.name) {
            Ok(p) => p,
            Err(e) => {
                return Err(e);
            },
        };
        Ok(crate::model::Role { id, name })
    }

    /// Removes a role; idempotent.
    pub fn delete(table: &mut Table, id: i32) -> (r: AppResult<()>)
        requires
            old(table).wf(),
            old(table).ncols == 1,
        ensures
            final(table).wf(),
            final(table).ncols == 1,
            r is Ok,
            final(table)@ == old(table)@.filter(|row: RowView| row.id != id),
    {
        table.delete(id);
        Ok(())
    }
}

impl crate::model::Permission {
    /// Inserts a permission; its name is unique in the store.
    pub fn create(table: &mut Table, data: crate::model::PermissionForCreate) -> (r: AppResult<
        crate::model::Permission,
    >)
        requires
            old(table).wf(),
            old(table).ncols == 1,
        ensures
            final(table).wf(),
            final(table).ncols == 1,
            match r {
                Ok(p) => {
                    &&& p.id == old(table).next_id
                    &&& p.name@ == data.name@
                    &&& final(table)@ == old(table)@.push(
                        RowView {
                            id: old(table).next_id as int,
                            fields: seq![ValueView::Text(data.name@)],
                        },
                    )
                },
                Err(e) => {
                    &&& e is DatabaseError
                    &&& final(table)@ == old(table)@
                    &&& (old(table).next_id == i32::MAX || exists|i: int|
                        0 <= i < old(table)@.len() && (#[trigger] old(table)@[i]).fields[0]
                            == ValueView::Text(data.name@))
                },
            },
    {
        let (id, name) = match named_create(table, data.name) {
            Ok(p) => p,
            Err(e) => {
                return Err(e);
            },
        };
        Ok(crate::model::Permission { id, name })
    }

    /// Looks a permission up by id.
    pub fn get(table: &Table, id: i32) -> (r: AppResult<crate::model::Permission>)
        requires
            table.wf(),
            table.ncols == 1,
        ensures
            match r {
                Ok(p) => p.id == id && exists|i: int|
                    0 <= i < table@.len() && (#[trigger] table@[i]).id == id && named_matches_row(
                        id as int,
                        p.name@,
                        table@[i],
                    ),
                Err(e) => {
                    ||| (e is NotFound && forall|i: int|
                        0 <= i < table@.len() ==> (#[trigger] table@[i]).id != id)
                    ||| (e is DatabaseError && exists|i: int|
                        0 <= i < table@.len() && (#[trigger] table@[i]).id == id && !named_row_ok(
                            table@[i],
                        ))
                },
            },
    {
        let (id, name) = match named_get(table, id) {
            Ok(p) => p,
            Err(e) => {
                return Err(e);
            },
        };
        Ok(crate::model::Permission { id, name })
    }


    /// Renames a permission.
    pub fn update(table: &mut Table, id: i32, data: crate::model::PermissionForCreate) -> (r:
        AppResult<crate::model::Permission>)
        requires
            old(table).wf(),
            old(table).ncols == 1,
        ensures
            final(table).wf(),
            final(table).ncols == 1,
            match r {
                Ok(p) => {
                    &&& p.id == id
                    &&& p.name@ == data.name@
                    &&& exists|i: int|
                        {
                            &&& 0 <= i < old(table)@.len()
                            &&& (#[trigger] old(table)@[i]).id == id
                            &&& final(table)@ == old(table)@.update(
                                i,
                                RowView {
                                    id: id as int,
                                    fields: seq![ValueView::Text(data.name@)],
                                },
                            )
                        }
                },
                Err(e) => {
                    &&& e is NotFound
                    &&& final(table)@ == old(table)@
                    &&& forall|i: int|
                        0 <= i < old(table)@.len() ==> (#[trigger] old(table)@[i]).id != id
                },
            },
    {
        let (id, name) = match named_update(table, id, data.name) {
            Ok(p) => p,
            Err(e) => {
                return Err(e);
            },
        };
        Ok(crate::model::Permission { id, name })
    }

    /// Removes a permission; idempotent.
    pub fn delete(table: &mut Table, id: i32) -> (r: AppResult<()>)
        requires
            old(table).wf(),
            old(table).ncols == 1,
        ensures
            final(table).wf(),
            final(table).ncols == 1,
            r is Ok,
            final(table)@ == old(table)@.filter(|row: RowView| row.id != id),
    {
        table.delete(id);
        Ok(())
    }
}


/// Whether a requested sort names the id column or the name column of a
/// named-entity table; `sc` is the resolved column.
pub open spec fn named_sort_resolution(sort_by: Option<String>, sc: Option<usize>) -> bool {
    match sort_by {
        None => sc is None,
        Some(s) => {
            ||| (s@ == "id"@ && sc is None)
            ||| (sc == Some(0usize) && s@ == "name"@)
        },
    }
}

/// Whether a requested sort is in a named-entity table's allow-list.
pub open spec fn named_sort_allowed(sort_by: Option<String>) -> bool {
    match sort_by {
        None => true,
        Some(s) => s@ == "id"@ || s@ == "name"@,
    }
}

/// What a successful named-entity listing returns, over the entities' ids
/// and names.
pub open spec fn named_list_post(
    tv: Seq<RowView>,
    options: ListOptions,
    data: Seq<(int, Seq<char>)>,
    pagination: Paginator,
) -> bool {
    let q = query_of(options);
    let page = effective_page(options.page);
    let per = effective_per_page(options.per_page);
    let asc = ascending_of(options);
    &&& page >= 1
    &&& named_sort_allowed(options.sort_by)
    &&& pagination.current_page == page
    &&& pagination.per_page == per
    &&& exists|sc: Option<usize>, sorted: Seq<RowView>|
        #![trigger rows_sorted(sorted, sc, asc)]
        {
            let filtered = tv.filter(|row: RowView| row_matches(row, q, seq![0usize]));
            let slice = page_slice(sorted, (page - 1) * per, per as int);
            &&& named_sort_resolution(options.sort_by, sc)
            &&& sorted.to_multiset() == filtered.to_multiset()
            &&& rows_sorted(sorted, sc, asc)
            &&& pagination.total_count == filtered.len()
            &&& pagination.total_pages == ceil_div(filtered.len(), per as nat)
            &&& data.len() == slice.len()
            &&& forall|k: int|
                0 <= k < slice.len() ==> named_row_ok(#[trigger] slice[k]) && named_matches_row(
                    data[k].0,
                    data[k].1,
                    slice[k],
                )
        }
}

/// The paginated search over a named-entity table; the shared engine of
/// `Role::list` and `Permission::list`.
#[verifier::rlimit(60)]
fn named_list(table: &Table, options: &ListOptions) -> (r: AppResult<(Vec<(i32, String)>, Paginator)>)
    requires
        table.wf(),
        table.ncols == 1,
    ensures
        match r {
            Ok(l) => named_list_post(
                table@,
                *options,
                l.0@.map_values(|p: (i32, String)| (p.0 as int, p.1@)),
                l.1,
            ),
            Err(e) => e is DatabaseError,
        },
        (effective_page(options.page) >= 1 && named_sort_allowed(options.sort_by) && table@.len()
            <= u16::MAX && (forall|i: int|
            0 <= i < table@.len() ==> named_row_ok(#[trigger] table@[i]))) ==> r is Ok,
{
    let page = crate::model::page_of(options);
    if page == 0 {
        return Err(AppError::DatabaseError);
    }
    let per = crate::model::per_page_of(options);
    let id_name = String::from_str("id");
    let name_name = String::from_str("name");
    let sc: Option<usize> = match &options.sort_by {
        Some(s) => {
            if s.eq(&id_name) {
                None
            } else if s.eq(&name_name) {
                Some(0)
            } else {
                return Err(AppError::DatabaseError);
            }
        },
        None => None,
    };
    let asc = match options.ascending {
        Some(b) => b,
        None => true,
    };
    let empty_query = String::new();
    let q = match &options.q {
        Some(s) => s.as_str(),
        None => empty_query.as_str(),
    };
    let search_cols: Vec<usize> = vec![0];
    proof {
        assert(search_cols@ =~= seq![0usize]);
    }
    let (rows, total) = table.list_rows(q, &search_cols, sc, asc, page, per);
    let ghost qv = query_of(*options);
    let ghost pred = |row: RowView| row_matches(row, qv, seq![0usize]);
    let ghost filtered = table@.filter(pred);
    proof {
        assert(q@ == qv);
        assert(pred == (|row: RowView| row_matches(row, q@, search_cols@)));
        table@.lemma_filter_len(pred);
    }
    if total > 65535 {
        return Err(AppError::DatabaseError);
    }
    let pagination = Paginator::make(page, per, total as u16);
    let ghost sorted_w = choose|sorted: Seq<RowView>|
        {
            &&& #[trigger] sorted.to_multiset() == table@.filter(
                |row: RowView| row_matches(row, q@, search_cols@),
            ).to_multiset()
            &&& rows_sorted(sorted, sc, asc)
            &&& rows@.map_values(|row: Row| row@) == page_slice(
                sorted,
                (page - 1) * per,
                per as int,
            )
        };
    proof {
        assert(sorted_w.to_multiset() == filtered.to_multiset());
        assert(rows_sorted(sorted_w, sc, asc));
        assert(rows@.map_values(|row: Row| row@) == page_slice(
            sorted_w,
            (page - 1) * per,
            per as int,
        ));
    }
    let mut data: Vec<(i32, String)> = Vec::new();
    let mut j: usize = 0;
    while j < rows.len()
        invariant
            table.wf(),
            0 <= j <= rows@.len(),
            data@.len() == j,
            qv == query_of(*options),
            pred == (|row: RowView| row_matches(row, qv, seq![0usize])),
            filtered == table@.filter(pred),
            sorted_w.to_multiset() == filtered.to_multiset(),
            1 <= page,
            1 <= per <= 1000,
            rows@.map_values(|row: Row| row@) == page_slice(
                sorted_w,
                (page - 1) * per,
                per as int,
            ),
            forall|k: int|
                0 <= k < j ==> named_row_ok((#[trigger] rows@[k])@) && named_matches_row(
                    data@[k].0 as int,
                    data@[k].1@,
                    rows@[k]@,
                ),
        decreases rows@.len() - j,
    {
        let ok = rows[j].fields.len() == 1;
        let mut parsed: Option<(i32, String)> = None;
        if ok {
            match &rows[j].fields[0] {
                Value::Text(name) => {
                    parsed = Some((rows[j].id, name.clone()));
                },
                _ => {},
            }
        }
        match parsed {
            Some(p) => {
                proof {
                    assert(rows@.map_values(|row: Row| row@)[j as int] == rows@[j as int]@);
                    assert(rows@[j as int]@.fields =~= seq![
                        ValueView::Text(p.1@),
                    ]);
                }
                data.push(p);
            },
            None => {
                proof {
                    broadcast use vstd::seq_lib::group_to_multiset_ensures;

                    let slice = page_slice(sorted_w, (page - 1) * per, per as int);
                    assert(rows@.map_values(|row: Row| row@).len() == rows@.len());
                    assert(slice.len() == rows@.len());
                    assert(rows@.map_values(|row: Row| row@)[j as int] == rows@[j as int]@);
                    assert(rows@[j as int]@ == slice[j as int]);
                    let off_c = if (page - 1) * per > sorted_w.len() {
                        sorted_w.len() as int
                    } else {
                        (page - 1) * per
                    };
                    assert(slice[j as int] == sorted_w[off_c + j]);
                    assert(sorted_w.contains(rows@[j as int]@));
                    assert(filtered.to_multiset().count(rows@[j as int]@) > 0);
                    assert(filtered.contains(rows@[j as int]@));
                    lemma_filter_subset(table@, pred);
                    assert(table@.contains(rows@[j as int]@));
                    let m = choose|m: int|
                        0 <= m < table@.len() && table@[m] == rows@[j as int]@;
                    assert(!named_row_ok(table@[m]));
                }
                return Err(AppError::DatabaseError);
            },
        }
        j = j + 1;
    }
    let ghost data_view = data@.map_values(|p: (i32, String)| (p.0 as int, p.1@));
    proof {
        let slice = page_slice(sorted_w, (page - 1) * per, per as int);
        assert(rows@.map_values(|row: Row| row@).len() == slice.len());
        assert(data_view.len() == slice.len());
        assert forall|k: int| 0 <= k < slice.len() implies named_row_ok(#[trigger] slice[k])
            && named_matches_row(data_view[k].0, data_view[k].1, slice[k]) by {
            assert(rows@.map_values(|row: Row| row@)[k] == rows@[k]@);
            assert(rows@[k]@ == slice[k]);
            assert(data_view[k] == (data@[k].0 as int, data@[k].1@));
        }
        assert(named_sort_resolution(options.sort_by, sc));
        assert(named_sort_allowed(options.sort_by));
        let q2 = query_of(*options);
        let filtered2 = table@.filter(|row: RowView| row_matches(row, q2, seq![0usize]));
        assert(filtered2 == filtered) by {
            assert((|row: RowView| row_matches(row, q2, seq![0usize])) =~= pred);
        }
        assert(asc == ascending_of(*options));
        assert(
            {
                let slice2 = page_slice(sorted_w, (page - 1) * per, per as int);
                &&& named_sort_resolution(options.sort_by, sc)
                &&& sorted_w.to_multiset() == filtered2.to_multiset()
                &&& rows_sorted(sorted_w, sc, asc)
                &&& pagination.total_count == filtered2.len()
                &&& pagination.total_pages == ceil_div(filtered2.len(), per as nat)
                &&& data_view.len() == slice2.len()
                &&& forall|k: int|
                    0 <= k < slice2.len() ==> named_row_ok(#[trigger] slice2[k])
                        && named_matches_row(data_view[k].0, data_view[k].1, slice2[k])
            });
        assert(named_list_post(table@, *options, data_view, pagination));
    }
    Ok((data, pagination))
}


impl crate::model::Role {
    /// The paginated search over roles.
    pub fn list(table: &Table, options: &ListOptions) -> (r: AppResult<List<crate::model::Role>>)
        requires
            table.wf(),
            table.ncols == 1,
        ensures
            match r {
                Ok(l) => named_list_post(
                    table@,
                    *options,
                    l.data@.map_values(|e: crate::model::Role| (e.id as int, e.name@)),
                    l.pagination,
                ),
                Err(e) => e is DatabaseError,
            },
            (effective_page(options.page) >= 1 && named_sort_allowed(options.sort_by)
                && table@.len() <= u16::MAX && (forall|i: int|
                0 <= i < table@.len() ==> named_row_ok(#[trigger] table@[i]))) ==> r is Ok,
    {
        let (pairs, pagination) = match named_list(table, options) {
            Ok(l) => l,
            Err(e) => {
                return Err(e);
            },
        };
        let ghost pairs_view = pairs@.map_values(|p: (i32, String)| (p.0 as int, p.1@));
        let mut data: Vec<crate::model::Role> = Vec::new();
        let mut i: usize = 0;
        while i < pairs.len()
            invariant
                0 <= i <= pairs@.len(),
                data@.len() == i,
                forall|k: int|
                    0 <= k < i ==> (#[trigger] data@[k]).id == pairs@[k].0 && data@[k].name@
                        == pairs@[k].1@,
            decreases pairs@.len() - i,
        {
            let id = pairs[i].0;
            let name = pairs[i].1.clone();
            data.push(crate::model::Role { id, name });
            i = i + 1;
        }
        proof {
            assert(data@.map_values(|e: crate::model::Role| (e.id as int, e.name@))
                =~~= pairs_view);
        }
        Ok(List { data, pagination })
    }
}

impl crate::model::Permission {
    /// The paginated search over permissions.
    pub fn list(table: &Table, options: &ListOptions) -> (r: AppResult<
        List<crate::model::Permission>,
    >)
        requires
            table.wf(),
            table.ncols == 1,
        ensures
            match r {
                Ok(l) => named_list_post(
                    table@,
                    *options,
                    l.data@.map_values(|e: crate::model::Permission| (e.id as int, e.name@)),
                    l.pagination,
                ),
                Err(e) => e is DatabaseError,
            },
            (effective_page(options.page) >= 1 && named_sort_allowed(options.sort_by)
                && table@.len() <= u16::MAX && (forall|i: int|
                0 <= i < table@.len() ==> named_row_ok(#[trigger] table@[i]))) ==> r is Ok,
    {
        let (pairs, pagination) = match named_list(table, options) {
            Ok(l) => l,
            Err(e) => {
                return Err(e);
            },
        };
        let ghost pairs_view = pairs@.map_values(|p: (i32, String)| (p.0 as int, p.1@));
        let mut data: Vec<crate::model::Permission> = Vec::new();
        let mut i: usize = 0;
        while i < pairs.len()
            invariant
                0 <= i <= pairs@.len(),
                data@.len() == i,
                forall|k: int|
                    0 <= k < i ==> (#[trigger] data@[k]).id == pairs@[k].0 && data@[k].name@
                        == pairs@[k].1@,
            decreases pairs@.len() - i,
        {
            let id = pairs[i].0;
            let name = pairs[i].1.clone();
            data.push(crate::model::Permission { id, name });
            i = i + 1;
        }
        proof {
            assert(data@.map_values(|e: crate::model::Permission| (e.id as int, e.name@))
                =~~= pairs_view);
        }
        Ok(List { data, pagination })
    }
}

} // verus!
