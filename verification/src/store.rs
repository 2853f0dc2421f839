use vstd::prelude::*;

verus! {

/// A column value: the plain forms the repository stores.
pub enum Value {
    Null,
    Int(i64),
    Text(String),
}

/// The mathematical form of a column value.
pub enum ValueView {
    Null,
    Int(int),
    Text(Seq<char>),
}

impl View for Value {
    type V = ValueView;

    open spec fn view(&self) -> ValueView {
        match self {
            Value::Null => ValueView::Null,
            Value::Int(i) => ValueView::Int(*i as int),
            Value::Text(s) => ValueView::Text(s@),
        }
    }
}

pub fn clone_value(v: &Value) -> (r: Value)
    ensures
        r@ == v@,
{
    match v {
        Value::Null => Value::Null,
        Value::Int(i) => Value::Int(*i),
        Value::Text(s) => Value::Text(s.clone()),
    }
}

/// A stored row: the generated id and the column values, in schema order.
pub struct Row {
    pub id: i32,
    pub fields: Vec<Value>,
}

/// The mathematical form of a row.
pub struct RowView {
    pub id: int,
    pub fields: Seq<ValueView>,
}

impl View for Row {
    type V = RowView;

    open spec fn view(&self) -> RowView {
        RowView { id: self.id as int, fields: self.fields@.map_values(|v: Value| v@) }
    }
}

pub fn clone_row(row: &Row) -> (r: Row)
    ensures
        r@ == row@,
{
    let mut fields: Vec<Value> = Vec::new();
    let mut j: usize = 0;
    while j < row.fields.len()
        invariant
            0 <= j <= row.fields.len(),
            fields@.len() == j,
            forall|k: int| 0 <= k < j ==> fields@[k]@ == row.fields@[k]@,
        decreases row.fields.len() - j,
    {
        fields.push(clone_value(&row.fields[j]));
        j = j + 1;
    }
    let r = Row { id: row.id, fields };
    proof {
        assert(r@.fields =~= row@.fields);
    }
    r
}

/// One row's well-formedness within a table.
pub open spec fn row_wf(r: RowView, ncols: nat, next_id: int) -> bool {
    &&& r.fields.len() == ncols
    &&& 1 <= r.id < next_id
}

/// Applying a patch to a row's fields: patched columns take the new value,
/// the rest keep the old one.
pub open spec fn apply_patch(fields: Seq<ValueView>, patch: Seq<Option<ValueView>>) -> Seq<
    ValueView,
> {
    Seq::new(
        fields.len(),
        |j: int|
            match patch[j] {
                Some(v) => v,
                None => fields[j],
            },
    )
}

/// The in-memory relational table: rows with unique, generated, immutable
/// integer ids. This is the model the SQL statements of the repository are
/// held to.
pub struct Table {
    pub rows: Vec<Row>,
    pub next_id: i32,
    pub ncols: usize,
}

impl View for Table {
    type V = Seq<RowView>;

    open spec fn view(&self) -> Seq<RowView> {
        self.rows@.map_values(|r: Row| r@)
    }
}

impl Table {
    pub open spec fn wf(&self) -> bool {
        &&& 1 <= self.next_id
        &&& forall|i: int|
            0 <= i < self@.len() ==> row_wf(
                #[trigger] self@[i],
                self.ncols as nat,
                self.next_id as int,
            )
        &&& forall|i: int, j: int|
            0 <= i < j < self@.len() ==> (#[trigger] self@[i]).id != (#[trigger] self@[j]).id
    }

    /// An empty table with the given number of columns.
    pub fn new(ncols: usize) -> (r: Table)
        ensures
            r.wf(),
            r@ == Seq::<RowView>::empty(),
            r.ncols == ncols,
            r.next_id == 1,
    {
        let r = Table { rows: Vec::new(), next_id: 1, ncols };
        proof {
            assert(r@ =~= Seq::<RowView>::empty());
        }
        r
    }

    /// Inserts a fresh row with the next generated id and returns it.
    pub fn create(&mut self, values: Vec<Value>) -> (r: Row)
        requires
            old(self).wf(),
            values@.len() == old(self).ncols,
            old(self).next_id < i32::MAX,
        ensures
            final(self).wf(),
            final(self).ncols == old(self).ncols,
            final(self).next_id == old(self).next_id + 1,
            r@.id == old(self).next_id as int,
            r@.fields == values@.map_values(|v: Value| v@),
            final(self)@ == old(self)@.push(r@),
    {
        let id = self.next_id;
        let row = Row { id, fields: values };
        let copy = clone_row(&row);
        self.rows.push(row);
        self.next_id = self.next_id + 1;
        proof {
            assert(self@ =~= old(self)@.push(copy@));
        }
        copy
    }

    /// Looks a row up by id.
    pub fn get(&self, id: i32) -> (r: Option<&Row>)
        requires
            self.wf(),
        ensures
            match r {
                Some(row) => exists|i: int|
                    0 <= i < self@.len() && (#[trigger] self@[i]).id == id && row@ == self@[i],
                None => forall|i: int| 0 <= i < self@.len() ==> (#[trigger] self@[i]).id != id,
            },
    {
        let mut i: usize = 0;
        while i < self.rows.len()
            invariant
                0 <= i <= self.rows.len(),
                self@.len() == self.rows.len(),
                forall|j: int| 0 <= j < i ==> (#[trigger] self@[j]).id != id,
            decreases self.rows.len() - i,
        {
            if self.rows[i].id == id {
                proof {
                    assert(self@[i as int] == self.rows@[i as int]@);
                }
                return Some(&self.rows[i]);
            }
            i = i + 1;
        }
        None
    }

    /// Finds the first row whose given text column holds exactly `value`.
    pub fn find_by_text(&self, col: usize, value: &String) -> (r: Option<&Row>)
        requires
            self.wf(),
            col < self.ncols,
        ensures
            match r {
                Some(row) => exists|i: int|
                    0 <= i < self@.len() && row@ == self@[i] && (#[trigger] self@[i]).fields[col as int]
                        == ValueView::Text(value@),
                None => forall|i: int|
                    0 <= i < self@.len() ==> (#[trigger] self@[i]).fields[col as int]
                        != ValueView::Text(value@),
            },
    {
        let mut i: usize = 0;
        while i < self.rows.len()
            invariant
                0 <= i <= self.rows.len(),
                self@.len() == self.rows.len(),
                self.wf(),
                col < self.ncols,
                forall|j: int|
                    0 <= j < i ==> (#[trigger] self@[j]).fields[col as int] != ValueView::Text(
                        value@,
                    ),
            decreases self.rows.len() - i,
        {
            match &self.rows[i].fields[col] {
                Value::Text(s) => {
                    if s.eq(value) {
                        proof {
                            assert(self@[i as int].fields[col as int] == ValueView::Text(value@));
                        }
                        return Some(&self.rows[i]);
                    }
                },
                _ => {},
            }
            i = i + 1;
        }
        None
    }

    /// Updates the row with the given id by the patch: patched columns take
    /// the new value, the others are kept. Returns the updated row, or
    /// `None` when no row has the id (then nothing changes).
    pub fn update(&mut self, id: i32, patch: Vec<Option<Value>>) -> (r: Option<Row>)
        requires
            old(self).wf(),
            patch@.len() == old(self).ncols,
        ensures
            final(self).wf(),
            final(self).ncols == old(self).ncols,
            final(self).next_id == old(self).next_id,
            match r {
                Some(row) => exists|i: int|
                    {
                        &&& 0 <= i < old(self)@.len()
                        &&& (#[trigger] old(self)@[i]).id == id
                        &&& row@.id == id
                        &&& row@.fields == apply_patch(
                            old(self)@[i].fields,
                            patch@.map_values(
                                |o: Option<Value>|
                                    match o {
                                        Some(v) => Some(v@),
                                        None => None,
                                    },
                            ),
                        )
                        &&& final(self)@ == old(self)@.update(i, row@)
                    },
                None => {
                    &&& final(self)@ == old(self)@
                    &&& forall|i: int|
                        0 <= i < final(self)@.len() ==> (#[trigger] final(self)@[i]).id != id
                },
            },
    {
        let ghost patch_view = patch@.map_values(
            |o: Option<Value>|
                match o {
                    Some(v) => Some(v@),
                    None => None,
                },
        );
        let mut i: usize = 0;
        while i < self.rows.len()
            invariant
                0 <= i <= self.rows.len(),
                self == old(self),
                self@.len() == self.rows.len(),
                self.wf(),
                patch@.len() == self.ncols,
                patch_view == patch@.map_values(
                    |o: Option<Value>|
                        match o {
                            Some(v) => Some(v@),
                            None => None,
                        },
                ),
                forall|j: int| 0 <= j < i ==> (#[trigger] self@[j]).id != id,
            decreases self.rows.len() - i,
        {
            if self.rows[i].id == id {
                proof {
                    assert(row_wf(self@[i as int], self.ncols as nat, self.next_id as int));
                    assert(self@[i as int] == self.rows@[i as int]@);
                }
                let mut new_fields: Vec<Value> = Vec::new();
                let mut j: usize = 0;
                while j < patch.len()
                    invariant
                        0 <= j <= patch.len(),
                        i < self.rows.len(),
                        patch@.len() == self.rows@[i as int].fields@.len(),
                        patch_view == patch@.map_values(
                            |o: Option<Value>|
                                match o {
                                    Some(v) => Some(v@),
                                    None => None,
                                },
                        ),
                        new_fields@.len() == j,
                        forall|k: int|
                            0 <= k < j ==> new_fields@[k]@ == (match patch_view[k] {
                                Some(v) => v,
                                None => self.rows@[i as int]@.fields[k],
                            }),
                    decreases patch.len() - j,
                {
                    match &patch[j] {
                        Some(v) => {
                            new_fields.push(clone_value(v));
                        },
                        None => {
                            new_fields.push(clone_value(&self.rows[i].fields[j]));
                        },
                    }
                    j = j + 1;
                }
                let new_row = Row { id, fields: new_fields };
                let result = clone_row(&new_row);
                proof {
                    assert(new_row@.fields =~= apply_patch(self@[i as int].fields, patch_view));
                }
                self.rows.set(i, new_row);
                proof {
                    assert forall|k: int| 0 <= k < self@.len() implies self@[k] == old(
                    self,
                    )@.update(i as int, result@)[k] by {
                        assert(self@[k] == self.rows@[k]@);
                        if k != i {
                            assert(self.rows@[k] == old(self).rows@[k]);
                        }
                    }
                    assert(self@ =~= old(self)@.update(i as int, result@));
                }
                return Some(result);
            }
            i = i + 1;
        }
        proof {
            assert(self@ =~= old(self)@);
        }
        None
    }

    /// Removes the row with the given id. Idempotent: succeeds whether or
    /// not such a row exists.
    pub fn delete(&mut self, id: i32)
        requires
            old(self).wf(),
        ensures
            final(self).wf(),
            final(self).ncols == old(self).ncols,
            final(self).next_id == old(self).next_id,
            final(self)@ == old(self)@.filter(|r: RowView| r.id != id),
    {
        let mut kept: Vec<Row> = Vec::new();
        let mut i: usize = 0;
        while i < self.rows.len()
            invariant
                0 <= i <= self.rows.len(),
                self@.len() == self.rows.len(),
                self == old(self),
                kept@.map_values(|r: Row| r@) == self@.take(i as int).filter(
                    |r: RowView| r.id != id,
                ),
            decreases self.rows.len() - i,
        {
            proof {
                reveal(Seq::filter);
                assert(self@.take(i + 1).drop_last() =~= self@.take(i as int));
                assert(self@.take(i + 1).last() == self@[i as int]);
            }
            if self.rows[i].id != id {
                let copy = clone_row(&self.rows[i]);
                kept.push(copy);
                proof {
                    reveal(Seq::filter);
                    assert(kept@.map_values(|r: Row| r@) =~= self@.take(i + 1).filter(
                        |r: RowView| r.id != id,
                    ));
                }
            } else {
                proof {
                    reveal(Seq::filter);
                    assert(kept@.map_values(|r: Row| r@) =~= self@.take(i + 1).filter(
                        |r: RowView| r.id != id,
                    ));
                }
            }
            i = i + 1;
        }
        proof {
            assert(self@.take(self.rows.len() as int) =~= self@);
        }
        self.rows = kept;
        proof {
            lemma_filter_keeps_wf(old(self)@, self.ncols as nat, self.next_id as int, id as int);
        }
    }
}

/// Filtering rows out of a well-formed row sequence keeps every remaining
/// row well-formed and the ids distinct.
proof fn lemma_filter_keeps_wf(s: Seq<RowView>, ncols: nat, next_id: int, id: int)
    requires
        forall|i: int| 0 <= i < s.len() ==> row_wf(#[trigger] s[i], ncols, next_id),
        forall|i: int, j: int| 0 <= i < j < s.len() ==> (#[trigger] s[i]).id != (#[trigger] s[j]).id,
    ensures
        ({
            let f = s.filter(|r: RowView| r.id != id);
            &&& forall|i: int| 0 <= i < f.len() ==> row_wf(#[trigger] f[i], ncols, next_id)
            &&& forall|i: int, j: int|
                0 <= i < j < f.len() ==> (#[trigger] f[i]).id != (#[trigger] f[j]).id
        }),
    decreases s.len(),
{
    reveal(Seq::filter);
    if s.len() > 0 {
        let prefix = s.drop_last();
        assert(forall|i: int| 0 <= i < prefix.len() ==> row_wf(#[trigger] prefix[i], ncols, next_id));
        assert(forall|i: int, j: int|
            0 <= i < j < prefix.len() ==> (#[trigger] prefix[i]).id != (#[trigger] prefix[j]).id);
        lemma_filter_keeps_wf(prefix, ncols, next_id, id);
        let fp = prefix.filter(|r: RowView| r.id != id);
        let f = s.filter(|r: RowView| r.id != id);
        if s.last().id != id {
            assert(f == fp.push(s.last()));
            assert forall|i: int, j: int| 0 <= i < j < f.len() implies (#[trigger] f[i]).id != (
            #[trigger] f[j]).id by {
                if j == f.len() - 1 {
                    assert(f[j] == s.last());
                    assert(fp.contains(f[i]));
                    let k = choose|k: int| 0 <= k < fp.len() && fp[k] == f[i];
                    lemma_filter_element_from(prefix, id, k);
                }
            }
        } else {
            assert(f == fp);
        }
    }
}

/// Every element of a filtered sequence occurs in the original.
proof fn lemma_filter_element_from(s: Seq<RowView>, id: int, k: int)
    requires
        0 <= k < s.filter(|r: RowView| r.id != id).len(),
    ensures
        exists|m: int|
            0 <= m < s.len() && s[m] == s.filter(|r: RowView| r.id != id)[k],
    decreases s.len(),
{
    reveal(Seq::filter);
    if s.len() > 0 {
        let prefix = s.drop_last();
        let fp = prefix.filter(|r: RowView| r.id != id);
        if k < fp.len() {
            lemma_filter_element_from(prefix, id, k);
            let m = choose|m: int| 0 <= m < prefix.len() && prefix[m] == fp[k];
            assert(s[m] == prefix[m]);
        } else {
            assert(s.filter(|r: RowView| r.id != id)[k] == s.last());
            assert(s[s.len() - 1] == s.last());
        }
    }
}


// ---------------------------------------------------------------------------
// Case-insensitive substring matching (the model of `ILIKE '%q%'`).
// ---------------------------------------------------------------------------

/// A character's code with ASCII uppercase folded to lowercase.
pub open spec fn lower_code(c: char) -> int {
    if 65 <= (c as u32) && (c as u32) <= 90 {
        (c as u32) + 32
    } else {
        (c as u32) as int
    }
}

/// The needle matches the haystack at the given position, ignoring ASCII case.
pub open spec fn ci_match_at(h: Seq<char>, n: Seq<char>, pos: int) -> bool {
    forall|k: int| 0 <= k < n.len() ==> lower_code(h[pos + k]) == lower_code(n[k])
}

/// The haystack contains the needle as a substring, ignoring ASCII case.
pub open spec fn ci_contains(h: Seq<char>, n: Seq<char>) -> bool {
    exists|pos: int| 0 <= pos && pos + n.len() <= h.len() && ci_match_at(h, n, pos)
}

fn lower_code_of(c: char) -> (r: u32)
    ensures
        r == lower_code(c),
{
    let u = c as u32;
    if 65 <= u && u <= 90 {
        u + 32
    } else {
        u
    }
}

/// Whether `haystack` contains `needle`, ignoring ASCII case.
pub fn text_contains_ci(haystack: &str, needle: &str) -> (r: bool)
    ensures
        r == ci_contains(haystack@, needle@),
{
    let hl = haystack.unicode_len();
    let nl = needle.unicode_len();
    if nl > hl {
        return false;
    }
    let mut pos: usize = 0;
    while pos <= hl - nl
        invariant
            hl == haystack@.len(),
            nl == needle@.len(),
            nl <= hl,
            0 <= pos <= hl - nl + 1,
            forall|j: int| 0 <= j < pos ==> !ci_match_at(haystack@, needle@, j),
        decreases hl - nl + 1 - pos,
    {
        let mut k: usize = 0;
        let mut mismatch = false;
        while k < nl
            invariant
                hl == haystack@.len(),
                nl == needle@.len(),
                pos + nl <= hl,
                0 <= k <= nl,
                !mismatch ==> forall|m: int|
                    0 <= m < k ==> lower_code(haystack@[pos + m]) == lower_code(needle@[m]),
                mismatch ==> !ci_match_at(haystack@, needle@, pos as int),
            decreases nl - k,
        {
            let hc = lower_code_of(haystack.get_char(pos + k));
            let nc = lower_code_of(needle.get_char(k));
            if hc != nc {
                proof {
                    assert(lower_code(haystack@[pos + k]) != lower_code(needle@[k as int]));
                }
                mismatch = true;
            }
            k = k + 1;
        }
        if !mismatch {
            proof {
                assert(ci_match_at(haystack@, needle@, pos as int));
            }
            return true;
        }
        pos = pos + 1;
    }
    proof {
        assert forall|j: int| 0 <= j && j + needle@.len() <= haystack@.len() implies !ci_match_at(
            haystack@,
            needle@,
            j,
        ) by {
            assert(j < pos);
        }
    }
    false
}

/// Whether a stored value matches the free-text query: only text values
/// match, by case-insensitive substring.
pub open spec fn value_matches_ci(v: ValueView, q: Seq<char>) -> bool {
    match v {
        ValueView::Text(s) => ci_contains(s, q),
        _ => false,
    }
}

/// Whether a row matches the query: some declared search column matches.
pub open spec fn row_matches(r: RowView, q: Seq<char>, search_cols: Seq<usize>) -> bool {
    exists|k: int|
        0 <= k < search_cols.len() && value_matches_ci(
            r.fields[#[trigger] search_cols[k] as int],
            q,
        )
}

fn row_matches_exec(row: &Row, q: &str, search_cols: &Vec<usize>) -> (r: bool)
    requires
        forall|k: int| 0 <= k < search_cols@.len() ==> #[trigger] search_cols@[k] < row.fields@.len(),
    ensures
        r == row_matches(row@, q@, search_cols@),
{
    let mut k: usize = 0;
    while k < search_cols.len()
        invariant
            forall|m: int|
                0 <= m < search_cols@.len() ==> #[trigger] search_cols@[m] < row.fields@.len(),
            0 <= k <= search_cols@.len(),
            forall|m: int|
                0 <= m < k ==> !value_matches_ci(
                    row@.fields[#[trigger] search_cols@[m] as int],
                    q@,
                ),
        decreases search_cols@.len() - k,
    {
        let c = search_cols[k];
        match &row.fields[c] {
            Value::Text(s) => {
                if text_contains_ci(s.as_str(), q) {
                    proof {
                        assert(row@.fields[search_cols@[k as int] as int] == ValueView::Text(s@));
                    }
                    return true;
                }
            },
            _ => {},
        }
        proof {
            assert(row@.fields[search_cols@[k as int] as int] == row.fields@[c as int]@);
        }
        k = k + 1;
    }
    false
}

// ---------------------------------------------------------------------------
// Ordering (the model of `ORDER BY`). Values order by kind — nulls first,
// then integers, then text — integers numerically, text lexicographically by
// character code.
// ---------------------------------------------------------------------------

/// Lexicographic order on character sequences, by character code.
pub open spec fn lex_le(a: Seq<char>, b: Seq<char>) -> bool
    decreases a.len(),
{
    if a.len() == 0 {
        true
    } else if b.len() == 0 {
        false
    } else if (a[0] as u32) < (b[0] as u32) {
        true
    } else if (a[0] as u32) > (b[0] as u32) {
        false
    } else {
        lex_le(a.drop_first(), b.drop_first())
    }
}

/// The kind order: nulls before integers before text.
pub open spec fn value_rank(v: ValueView) -> int {
    match v {
        ValueView::Null => 0,
        ValueView::Int(_) => 1,
        ValueView::Text(_) => 2,
    }
}

/// The total order on stored values.
pub open spec fn value_le(a: ValueView, b: ValueView) -> bool {
    if value_rank(a) != value_rank(b) {
        value_rank(a) < value_rank(b)
    } else {
        match (a, b) {
            (ValueView::Int(x), ValueView::Int(y)) => x <= y,
            (ValueView::Text(s), ValueView::Text(t)) => lex_le(s, t),
            _ => true,
        }
    }
}

/// The row order a listing sorts by: by the chosen column, or by id when
/// none is chosen; descending flips the comparison.
pub open spec fn row_le(col: Option<usize>, asc: bool, a: RowView, b: RowView) -> bool {
    match col {
        Some(c) => if asc {
            value_le(a.fields[c as int], b.fields[c as int])
        } else {
            value_le(b.fields[c as int], a.fields[c as int])
        },
        None => if asc {
            a.id <= b.id
        } else {
            b.id <= a.id
        },
    }
}

/// A row sequence sorted by the chosen column and direction.
pub open spec fn rows_sorted(s: Seq<RowView>, col: Option<usize>, asc: bool) -> bool {
    forall|i: int, j: int| 0 <= i < j < s.len() ==> #[trigger] row_le(col, asc, s[i], s[j])
}

proof fn lemma_lex_le_total(a: Seq<char>, b: Seq<char>)
    ensures
        lex_le(a, b) || lex_le(b, a),
    decreases a.len(),
{
    if a.len() != 0 && b.len() != 0 && (a[0] as u32) == (b[0] as u32) {
        lemma_lex_le_total(a.drop_first(), b.drop_first());
    }
}

proof fn lemma_lex_le_trans(a: Seq<char>, b: Seq<char>, c: Seq<char>)
    requires
        lex_le(a, b),
        lex_le(b, c),
    ensures
        lex_le(a, c),
    decreases a.len(),
{
    if a.len() != 0 {
        if (a[0] as u32) == (b[0] as u32) && (b[0] as u32) == (c[0] as u32) {
            lemma_lex_le_trans(a.drop_first(), b.drop_first(), c.drop_first());
        }
    }
}

proof fn lemma_value_le_total(a: ValueView, b: ValueView)
    ensures
        value_le(a, b) || value_le(b, a),
{
    if value_rank(a) == value_rank(b) {
        match (a, b) {
            (ValueView::Text(s), ValueView::Text(t)) => lemma_lex_le_total(s, t),
            _ => {},
        }
    }
}

proof fn lemma_value_le_trans(a: ValueView, b: ValueView, c: ValueView)
    requires
        value_le(a, b),
        value_le(b, c),
    ensures
        value_le(a, c),
{
    if value_rank(a) == value_rank(b) && value_rank(b) == value_rank(c) {
        match (a, b, c) {
            (ValueView::Text(s), ValueView::Text(t), ValueView::Text(u)) => lemma_lex_le_trans(
                s,
                t,
                u,
            ),
            _ => {},
        }
    }
}

proof fn lemma_row_le_total(col: Option<usize>, asc: bool, a: RowView, b: RowView)
    ensures
        row_le(col, asc, a, b) || row_le(col, asc, b, a),
{
    match col {
        Some(c) => lemma_value_le_total(a.fields[c as int], b.fields[c as int]),
        None => {},
    }
}

proof fn lemma_row_le_trans(col: Option<usize>, asc: bool, a: RowView, b: RowView, c: RowView)
    requires
        row_le(col, asc, a, b),
        row_le(col, asc, b, c),
    ensures
        row_le(col, asc, a, c),
{
    match col {
        Some(cc) => {
            if asc {
                lemma_value_le_trans(
                    a.fields[cc as int],
                    b.fields[cc as int],
                    c.fields[cc as int],
                );
            } else {
                lemma_value_le_trans(
                    c.fields[cc as int],
                    b.fields[cc as int],
                    a.fields[cc as int],
                );
            }
        },
        None => {},
    }
}

fn lex_le_exec(a: &str, b: &str) -> (r: bool)
    ensures
        r == lex_le(a@, b@),
{
    let al = a.unicode_len();
    let bl = b.unicode_len();
    let mut i: usize = 0;
    proof {
        assert(a@.skip(0) =~= a@);
        assert(b@.skip(0) =~= b@);
    }
    while i < al && i < bl
        invariant
            al == a@.len(),
            bl == b@.len(),
            0 <= i <= al,
            0 <= i <= bl,
            lex_le(a@, b@) == lex_le(a@.skip(i as int), b@.skip(i as int)),
        decreases al - i,
    {
        let ca = a.get_char(i);
        let cb = b.get_char(i);
        if (ca as u32) < (cb as u32) {
            return true;
        }
        if (ca as u32) > (cb as u32) {
            return false;
        }
        proof {
            assert(a@.skip(i as int).drop_first() =~= a@.skip(i + 1));
            assert(b@.skip(i as int).drop_first() =~= b@.skip(i + 1));
        }
        i = i + 1;
    }
    proof {
        if i == al {
            assert(a@.skip(i as int).len() == 0);
        } else {
            assert(b@.skip(i as int).len() == 0);
            assert(a@.skip(i as int).len() > 0);
        }
    }
    al <= bl
}

fn value_le_exec(a: &Value, b: &Value) -> (r: bool)
    ensures
        r == value_le(a@, b@),
{
    match (a, b) {
        (Value::Null, _) => true,
        (Value::Int(_), Value::Null) => false,
        (Value::Int(x), Value::Int(y)) => *x <= *y,
        (Value::Int(_), Value::Text(_)) => true,
        (Value::Text(_), Value::Null) => false,
        (Value::Text(_), Value::Int(_)) => false,
        (Value::Text(s), Value::Text(t)) => lex_le_exec(s.as_str(), t.as_str()),
    }
}

fn row_le_exec(col: Option<usize>, asc: bool, a: &Row, b: &Row) -> (r: bool)
    requires
        match col {
            Some(c) => c < a.fields@.len() && c < b.fields@.len(),
            None => true,
        },
    ensures
        r == row_le(col, asc, a@, b@),
{
    match col {
        Some(c) => {
            proof {
                assert(a@.fields[c as int] == a.fields@[c as int]@);
                assert(b@.fields[c as int] == b.fields@[c as int]@);
            }
            if asc {
                value_le_exec(&a.fields[c], &b.fields[c])
            } else {
                value_le_exec(&b.fields[c], &a.fields[c])
            }
        },
        None => if asc {
            a.id <= b.id
        } else {
            b.id <= a.id
        },
    }
}

/// Inserting at any position adds the element to the sequence's multiset.
proof fn lemma_insert_to_multiset(s: Seq<RowView>, i: int, x: RowView)
    requires
        0 <= i <= s.len(),
    ensures
        s.insert(i, x).to_multiset() =~= s.to_multiset().insert(x),
{
    broadcast use vstd::seq_lib::group_to_multiset_ensures;

    let t = s.insert(i, x);
    assert(t[i] == x);
    assert(t.remove(i) =~= s);
    assert(t.remove(i).to_multiset() =~= t.to_multiset().remove(t[i]));
    assert(t.to_multiset().count(x) > 0) by {
        assert(t.contains(x));
    }
    assert(t.to_multiset() =~= t.to_multiset().remove(x).insert(x));
}

fn insert_sorted(out: &mut Vec<Row>, row: Row, col: Option<usize>, asc: bool, Ghost(ncols): Ghost<
    nat,
>)
    requires
        rows_sorted(old(out)@.map_values(|r: Row| r@), col, asc),
        forall|k: int| 0 <= k < old(out)@.len() ==> (#[trigger] old(out)@[k])@.fields.len() == ncols,
        row@.fields.len() == ncols,
        match col {
            Some(c) => c < ncols,
            None => true,
        },
    ensures
        rows_sorted(final(out)@.map_values(|r: Row| r@), col, asc),
        final(out)@.map_values(|r: Row| r@).to_multiset() == old(out)@.map_values(
            |r: Row| r@,
        ).to_multiset().insert(row@),
        forall|k: int| 0 <= k < final(out)@.len() ==> (#[trigger] final(out)@[k])@.fields.len() == ncols,
{
    let ghost old_view = out@.map_values(|r: Row| r@);
    let mut p: usize = 0;
    while p < out.len() && row_le_exec(col, asc, &out[p], &row)
        invariant
            out == old(out),
            0 <= p <= out@.len(),
            row@.fields.len() == ncols,
            forall|k: int| 0 <= k < out@.len() ==> (#[trigger] out@[k])@.fields.len() == ncols,
            match col {
                Some(c) => c < ncols,
                None => true,
            },
            forall|q: int| 0 <= q < p ==> row_le(col, asc, #[trigger] out@[q]@, row@),
        decreases out@.len() - p,
    {
        proof {
            assert(out@[p as int]@ == out@.map_values(|r: Row| r@)[p as int]);
        }
        p = p + 1;
    }
    proof {
        if p < out@.len() {
            assert(!row_le(col, asc, out@[p as int]@, row@));
            lemma_row_le_total(col, asc, out@[p as int]@, row@);
            assert(row_le(col, asc, row@, out@[p as int]@));
        }
    }
    out.insert(p, row);
    proof {
        let new_view = out@.map_values(|r: Row| r@);
        assert(new_view =~= old_view.insert(p as int, row@));
        lemma_insert_to_multiset(old_view, p as int, row@);
        assert forall|i: int, j: int| 0 <= i < j < new_view.len() implies #[trigger] row_le(
            col,
            asc,
            new_view[i],
            new_view[j],
        ) by {
            if i == p {
                // new_view[i] is the inserted row
                if j > p {
                    assert(new_view[j] == old_view[j - 1]);
                    if p < old_view.len() {
                        assert(row_le(col, asc, row@, old_view[p as int]));
                        if j - 1 > p {
                            assert(row_le(col, asc, old_view[p as int], old_view[j - 1]));
                            lemma_row_le_trans(
                                col,
                                asc,
                                row@,
                                old_view[p as int],
                                old_view[j - 1],
                            );
                        }
                    }
                }
            } else if j == p {
                assert(new_view[i] == old_view[i]);
                assert(row_le(col, asc, old_view[i], row@));
            } else if i < p && j > p {
                assert(new_view[i] == old_view[i]);
                assert(new_view[j] == old_view[j - 1]);
                if p < old_view.len() {
                    assert(row_le(col, asc, old_view[i], old_view[j - 1]));
                }
            } else if j < p {
                assert(new_view[i] == old_view[i]);
                assert(new_view[j] == old_view[j]);
            } else {
                // both beyond the insertion point
                assert(new_view[i] == old_view[i - 1]);
                assert(new_view[j] == old_view[j - 1]);
            }
        }
    }
}

fn sort_rows(rows: Vec<Row>, col: Option<usize>, asc: bool, Ghost(ncols): Ghost<nat>) -> (out: Vec<
    Row,
>)
    requires
        forall|k: int| 0 <= k < rows@.len() ==> (#[trigger] rows@[k])@.fields.len() == ncols,
        match col {
            Some(c) => c < ncols,
            None => true,
        },
    ensures
        rows_sorted(out@.map_values(|r: Row| r@), col, asc),
        out@.map_values(|r: Row| r@).to_multiset() == rows@.map_values(|r: Row| r@).to_multiset(),
        forall|k: int| 0 <= k < out@.len() ==> (#[trigger] out@[k])@.fields.len() == ncols,
{
    broadcast use vstd::seq_lib::group_to_multiset_ensures;

    let mut out: Vec<Row> = Vec::new();
    proof {
        assert(out@.map_values(|r: Row| r@) =~= Seq::<RowView>::empty());
        assert(rows@.map_values(|r: Row| r@).take(0) =~= Seq::<RowView>::empty());
    }
    let mut i: usize = 0;
    while i < rows.len()
        invariant
            0 <= i <= rows@.len(),
            forall|k: int| 0 <= k < rows@.len() ==> (#[trigger] rows@[k])@.fields.len() == ncols,
            match col {
                Some(c) => c < ncols,
                None => true,
            },
            rows_sorted(out@.map_values(|r: Row| r@), col, asc),
            out@.map_values(|r: Row| r@).to_multiset() == rows@.map_values(|r: Row| r@).take(
                i as int,
            ).to_multiset(),
            forall|k: int| 0 <= k < out@.len() ==> (#[trigger] out@[k])@.fields.len() == ncols,
        decreases rows@.len() - i,
    {
        let copy = clone_row(&rows[i]);
        insert_sorted(&mut out, copy, col, asc, Ghost(ncols));
        proof {
            broadcast use vstd::seq_lib::group_to_multiset_ensures;

            let rv = rows@.map_values(|r: Row| r@);
            assert(rv.take(i + 1).drop_last() =~= rv.take(i as int));
            assert(rv.take(i + 1) =~= rv.take(i as int).push(rv[i as int]));
            assert(rv.take(i + 1).to_multiset() =~= rv.take(i as int).to_multiset().insert(
                rv[i as int],
            ));
        }
        i = i + 1;
    }
    proof {
        assert(rows@.map_values(|r: Row| r@).take(rows@.len() as int) =~= rows@.map_values(
            |r: Row| r@,
        ));
    }
    out
}

/// The page window: the slice `[off, off + per)` of the sorted result,
/// clipped to the sequence.
pub open spec fn page_slice(s: Seq<RowView>, off: int, per: int) -> Seq<RowView> {
    let start = if off > s.len() {
        s.len() as int
    } else {
        off
    };
    let end = if off + per > s.len() {
        s.len() as int
    } else {
        off + per
    };
    s.subrange(start, end)
}

impl Table {
    /// The two-step paginated search: rows where some search column matches
    /// the query case-insensitively (all rows when the query is empty and a
    /// search column holds text), ordered by the chosen column, windowed to
    /// the requested page. Returns the page of rows and the total count of
    /// matching rows. Ties in the sort order leave the order between the
    /// tied rows open, as the store's `ORDER BY` does.
    pub fn list_rows(
        &self,
        q: &str,
        search_cols: &Vec<usize>,
        sort_col: Option<usize>,
        asc: bool,
        page: u16,
        per_page: u16,
    ) -> (r: (Vec<Row>, usize))
        requires
            self.wf(),
            forall|k: int| 0 <= k < search_cols@.len() ==> #[trigger] search_cols@[k] < self.ncols,
            match sort_col {
                Some(c) => c < self.ncols,
                None => true,
            },
            1 <= page,
            1 <= per_page <= 1000,
        ensures
            ({
                let filtered = self@.filter(|row: RowView| row_matches(row, q@, search_cols@));
                let off = (page - 1) * per_page;
                &&& r.1 == filtered.len()
                &&& exists|sorted: Seq<RowView>|
                    {
                        &&& #[trigger] sorted.to_multiset() == filtered.to_multiset()
                        &&& rows_sorted(sorted, sort_col, asc)
                        &&& r.0@.map_values(|row: Row| row@) == page_slice(
                            sorted,
                            off as int,
                            per_page as int,
                        )
                    }
            }),
    {
        let ghost pred = |row: RowView| row_matches(row, q@, search_cols@);
        let mut matching: Vec<Row> = Vec::new();
        let mut i: usize = 0;
        proof {
            assert(matching@.map_values(|r: Row| r@) =~= self@.take(0).filter(pred));
        }
        while i < self.rows.len()
            invariant
                0 <= i <= self.rows.len(),
                self@.len() == self.rows.len(),
                self.wf(),
                forall|k: int|
                    0 <= k < search_cols@.len() ==> #[trigger] search_cols@[k] < self.ncols,
                pred == (|row: RowView| row_matches(row, q@, search_cols@)),
                matching@.map_values(|r: Row| r@) == self@.take(i as int).filter(pred),
                forall|k: int|
                    0 <= k < matching@.len() ==> (#[trigger] matching@[k])@.fields.len()
                        == self.ncols,
            decreases self.rows.len() - i,
        {
            proof {
                reveal(Seq::filter);
                assert(self@.take(i + 1).drop_last() =~= self@.take(i as int));
                assert(self@.take(i + 1).last() == self@[i as int]);
                assert(self@[i as int] == self.rows@[i as int]@);
                assert(row_wf(self@[i as int], self.ncols as nat, self.next_id as int));
            }
            if row_matches_exec(&self.rows[i], q, search_cols) {
                let copy = clone_row(&self.rows[i]);
                matching.push(copy);
                proof {
                    reveal(Seq::filter);
                    assert(matching@.map_values(|r: Row| r@) =~= self@.take(i + 1).filter(pred));
                }
            } else {
                proof {
                    reveal(Seq::filter);
                    assert(matching@.map_values(|r: Row| r@) =~= self@.take(i + 1).filter(pred));
                }
            }
            i = i + 1;
        }
        proof {
            assert(self@.take(self.rows.len() as int) =~= self@);
        }
        let total = matching.len();
        let ghost filtered = self@.filter(pred);
        proof {
            broadcast use vstd::seq_lib::group_to_multiset_ensures;

        }
        let sorted = sort_rows(matching, sort_col, asc, Ghost(self.ncols as nat));
        let ghost sorted_view = sorted@.map_values(|r: Row| r@);
        proof {
            broadcast use vstd::seq_lib::group_to_multiset_ensures;

            assert(sorted_view.to_multiset().len() == filtered.to_multiset().len());
            assert(sorted_view.len() == filtered.len());
        }
        proof {
            assert((page - 1) * per_page <= 65535 * 1000) by (nonlinear_arith)
                requires
                    1 <= page <= 65535,
                    1 <= per_page <= 1000,
            ;
        }
        let off: usize = (page as usize - 1) * (per_page as usize);
        let start = if off > sorted.len() {
            sorted.len()
        } else {
            off
        };
        let end = if off + per_page as usize > sorted.len() {
            sorted.len()
        } else {
            off + per_page as usize
        };
        let mut out: Vec<Row> = Vec::new();
        let mut j: usize = start;
        proof {
            assert(out@.map_values(|r: Row| r@) =~= sorted_view.subrange(
                start as int,
                start as int,
            ));
        }
        while j < end
            invariant
                start <= j <= end <= sorted@.len(),
                sorted_view == sorted@.map_values(|r: Row| r@),
                out@.map_values(|r: Row| r@) == sorted_view.subrange(start as int, j as int),
            decreases end - j,
        {
            let copy = clone_row(&sorted[j]);
            proof {
                assert(copy@ == sorted_view[j as int]);
            }
            let ghost copy_view = copy@;
            let ghost prev = out@;
            out.push(copy);
            proof {
                assert(out@.len() == prev.len() + 1);
                assert(prev.map_values(|r: Row| r@).len() == prev.len());
                assert forall|k: int| 0 <= k < out@.len() implies out@[k]@ == sorted_view.subrange(
                    start as int,
                    j + 1,
                )[#[trigger] (k + 0)] by {
                    if k < prev.len() {
                        assert(out@[k] == prev[k]);
                        assert(prev.map_values(|r: Row| r@)[k] == prev[k]@);
                        assert(prev.map_values(|r: Row| r@)[k] == sorted_view.subrange(
                            start as int,
                            j as int,
                        )[k]);
                    } else {
                        assert(out@[k]@ == copy_view);
                    }
                }
                assert(out@.map_values(|r: Row| r@) =~= sorted_view.subrange(
                    start as int,
                    j + 1,
                ));
            }
            j = j + 1;
        }
        proof {
            assert(out@.map_values(|r: Row| r@) =~= page_slice(
                sorted_view,
                off as int,
                per_page as int,
            ));
        }
        (out, total)
    }
}



/// After an insert, exactly one row carries the fresh id — the inserted
/// row — so a lookup by that id sees the created record, field for field.
pub proof fn lemma_create_then_get(rows: Seq<RowView>, r: RowView, ncols: nat, next_id: int)
    requires
        forall|i: int| 0 <= i < rows.len() ==> row_wf(#[trigger] rows[i], ncols, next_id),
        r.id == next_id,
    ensures
        forall|i: int|
            0 <= i < rows.push(r).len() ==> ((#[trigger] rows.push(r)[i]).id == r.id <==> i
                == rows.len()),
        rows.push(r)[rows.len() as int] == r,
{
}

/// The rows a delete keeps.
pub open spec fn rows_without(rows: Seq<RowView>, id: int) -> Seq<RowView> {
    rows.filter(|x: RowView| x.id != id)
}

/// After a delete, no row carries the removed id: a lookup by it sees
/// nothing.
pub proof fn lemma_delete_then_get(rows: Seq<RowView>, id: int)
    ensures
        forall|i: int|
            0 <= i < rows_without(rows, id).len() ==> (#[trigger] rows_without(rows, id)[i]).id
                != id,
    decreases rows.len(),
{
    reveal(Seq::filter);
    if rows.len() > 0 {
        lemma_delete_then_get(rows.drop_last(), id);
        let f = rows.filter(|x: RowView| x.id != id);
        let fp = rows.drop_last().filter(|x: RowView| x.id != id);
        assert forall|i: int| 0 <= i < f.len() implies (#[trigger] f[i]).id != id by {
            if rows.last().id != id {
                assert(f == fp.push(rows.last()));
                if i < fp.len() {
                    assert(f[i] == fp[i]);
                }
            } else {
                assert(f == fp);
            }
        }
    }
}

/// After an update, the row with the id holds the new values and every
/// other row is untouched.
pub proof fn lemma_update_then_get(rows: Seq<RowView>, i: int, new_row: RowView)
    requires
        0 <= i < rows.len(),
    ensures
        rows.update(i, new_row)[i] == new_row,
        forall|j: int| 0 <= j < rows.len() && j != i ==> rows.update(i, new_row)[j] == rows[j],
{
}

} // verus!
