//! The SQL statement text for one table: the list query with its optional
//! filter, insert, update and delete.
use vstd::prelude::*;
use crate::schema::{Column, TableSchema};
use crate::text::{owned, text_eq};

verus! {

/// The texts of a sequence of strings.
pub open spec fn views(v: Seq<String>) -> Seq<Seq<char>> {
    v.map_values(|s: String| s@)
}

/// The items separated by commas.
pub open spec fn joined(items: Seq<Seq<char>>) -> Seq<char>
    decreases items.len(),
{
    if items.len() == 0 {
        Seq::empty()
    } else if items.len() == 1 {
        items[0]
    } else {
        joined(items.drop_last()) + ","@ + items.last()
    }
}

/// The column names of a table, in declaration order.
pub open spec fn column_names(t: TableSchema) -> Seq<Seq<char>> {
    t.columns@.map_values(|c: Column| c.name@)
}

/// `n` placeholders.
pub open spec fn placeholders(n: nat) -> Seq<Seq<char>> {
    Seq::new(n, |i: int| "?"@)
}

/// `name=?` for each name.
pub open spec fn assignments(names: Seq<Seq<char>>) -> Seq<Seq<char>> {
    names.map_values(|n: Seq<char>| n + "=?"@)
}

pub open spec fn select_text(t: TableSchema) -> Seq<char> {
    "SELECT "@ + joined(seq!["id"@] + column_names(t)) + " FROM "@ + t.name@
}

pub open spec fn insert_text(t: TableSchema) -> Seq<char> {
    "insert into "@ + t.name@ + "("@ + joined(column_names(t)) + ") values ("@
        + joined(placeholders(t.columns@.len())) + ")"@
}

pub open spec fn update_text(t: TableSchema) -> Seq<char> {
    "update "@ + t.name@ + " set "@ + joined(assignments(column_names(t))) + " where id=?"@
}

pub open spec fn delete_text(t: TableSchema) -> Seq<char> {
    "delete from "@ + t.name@ + " where id=?"@
}

/// A filter key is honoured when it is `id` or the name of one of the columns.
pub open spec fn is_filter_key(t: TableSchema, key: Seq<char>) -> bool {
    key == "id"@ || column_names(t).contains(key)
}

/// The list query of a table and the value bound to its filter, if any.
pub struct ListQuery {
    pub sql: String,
    pub filter_value: Option<String>,
}

proof fn lemma_views_push(s: Seq<String>, x: String)
    ensures
        views(s.push(x)) == views(s).push(x@),
{
    assert(views(s.push(x)) =~= views(s).push(x@));
}

/// Joins strings with commas.
pub fn join(items: &Vec<String>) -> (r: String)
    ensures
        r@ == joined(views(items@)),
{
    let mut r = String::new();
    let mut i: usize = 0;
    while i < items.len()
        invariant
            i <= items@.len(),
            r@ == joined(views(items@.take(i as int))),
        decreases items@.len() - i,
    {
        let ghost before = r@;
        assert(views(items@.take(i + 1)).drop_last() =~= views(items@.take(i as int)));
        assert(views(items@.take(i + 1)).last() == items@[i as int]@);
        if i > 0 {
            r.append(",");
        }
        r.append(items[i].as_str());
        proof {
            reveal_strlit(",");
            if i == 0 {
                assert(before == Seq::<char>::empty());
                assert(r@ =~= items@[0]@);
            }
        }
        i = i + 1;
    }
    assert(items@.take(i as int) =~= items@);
    r
}

/// The column names of a table.
fn names_of(t: &TableSchema) -> (r: Vec<String>)
    ensures
        views(r@) == column_names(*t),
{
    let mut r: Vec<String> = Vec::new();
    let mut i: usize = 0;
    while i < t.columns.len()
        invariant
            i <= t.columns@.len(),
            views(r@) =~= column_names(*t).take(i as int),
        decreases t.columns@.len() - i,
    {
        let ghost prev = r@;
        let n = t.columns[i].name.clone();
        r.push(n);
        proof {
            lemma_views_push(prev, n);
            assert(column_names(*t).take(i + 1) =~= column_names(*t).take(i as int).push(n@));
        }
        i = i + 1;
    }
    assert(column_names(*t).take(i as int) =~= column_names(*t));
    r
}

/// The query that lists every record of a table.
pub fn select_sql(t: &TableSchema) -> (r: String)
    ensures
        r@ == select_text(*t),
{
    let names = names_of(t);
    let mut items: Vec<String> = Vec::new();
    items.push(owned("id"));
    let mut i: usize = 0;
    while i < names.len()
        invariant
            i <= names@.len(),
            views(names@) == column_names(*t),
            views(items@) =~= seq!["id"@] + views(names@).take(i as int),
        decreases names@.len() - i,
    {
        let ghost prev = items@;
        let n = names[i].clone();
        items.push(n);
        proof {
            lemma_views_push(prev, n);
            assert(views(names@).take(i + 1) =~= views(names@).take(i as int).push(n@));
        }
        i = i + 1;
    }
    assert(views(names@).take(i as int) =~= views(names@));
    let mut r = owned("SELECT ");
    r.append(join(&items).as_str());
    r.append(" FROM ");
    r.append(t.name.as_str());
    r
}

/// The statement that inserts a record: one placeholder per column.
pub fn insert_sql(t: &TableSchema) -> (r: String)
    ensures
        r@ == insert_text(*t),
{
    let names = names_of(t);
    let mut marks: Vec<String> = Vec::new();
    let mut i: usize = 0;
    while i < t.columns.len()
        invariant
            i <= t.columns@.len(),
            views(marks@) =~= placeholders(i as nat),
        decreases t.columns@.len() - i,
    {
        let ghost prev = marks@;
        let m = owned("?");
        marks.push(m);
        proof {
            lemma_views_push(prev, m);
            assert(placeholders((i + 1) as nat) =~= placeholders(i as nat).push(m@));
        }
        i = i + 1;
    }
    let mut r = owned("insert into ");
    r.append(t.name.as_str());
    r.append("(");
    r.append(join(&names).as_str());
    r.append(") values (");
    r.append(join(&marks).as_str());
    r.append(")");
    r
}

/// The statement that updates a record by id: `column=?` for each column.
pub fn update_sql(t: &TableSchema) -> (r: String)
    ensures
        r@ == update_text(*t),
{
    let names = names_of(t);
    let mut sets: Vec<String> = Vec::new();
    let mut i: usize = 0;
    while i < names.len()
        invariant
            i <= names@.len(),
            views(names@) == column_names(*t),
            views(sets@) =~= assignments(views(names@)).take(i as int),
        decreases names@.len() - i,
    {
        let mut s = names[i].clone();
        s.append("=?");
        let ghost prev = sets@;
        sets.push(s);
        proof {
            lemma_views_push(prev, s);
            assert(assignments(views(names@)).take(i + 1) =~= assignments(views(names@)).take(i as int).push(s@));
        }
        i = i + 1;
    }
    assert(assignments(views(names@)).take(i as int) =~= assignments(views(names@)));
    let mut r = owned("update ");
    r.append(t.name.as_str());
    r.append(" set ");
    r.append(join(&sets).as_str());
    r.append(" where id=?");
    r
}

/// The statement that deletes a record by id.
pub fn delete_sql(t: &TableSchema) -> (r: String)
    ensures
        r@ == delete_text(*t),
{
    let mut r = owned("delete from ");
    r.append(t.name.as_str());
    r.append(" where id=?");
    r
}

/// Whether `key` names the id or a column of the table.
pub fn filter_key_allowed(t: &TableSchema, key: &str) -> (r: bool)
    ensures
        r == is_filter_key(*t, key@),
{
    proof {
        reveal_strlit("id");
    }
    if text_eq(key, "id") {
        return true;
    }
    let mut i: usize = 0;
    while i < t.columns.len()
        invariant
            i <= t.columns@.len(),
            forall|k: int| 0 <= k < i ==> t.columns@[k].name@ != key@,
        decreases t.columns@.len() - i,
    {
        if text_eq(t.columns[i].name.as_str(), key) {
            assert(column_names(*t)[i as int] == key@);
            return true;
        }
        i = i + 1;
    }
    assert(!column_names(*t).contains(key@)) by {
        if column_names(*t).contains(key@) {
            let k = choose|k: int| 0 <= k < column_names(*t).len() && column_names(*t)[k] == key@;
            assert(t.columns@[k].name@ == key@);
        }
    }
    false
}

/// The list query of a table. A filter pair whose key is `id` or a column
/// name restricts the list to records whose field equals the value, which is
/// bound as a parameter and never spliced into the text; any other key is
/// ignored and the whole table is listed.
pub fn list_query(t: &TableSchema, filter: &Option<(String, String)>) -> (r: ListQuery)
    ensures
        match filter {
            Some((k, v)) => if is_filter_key(*t, k@) {
                &&& r.sql@ == select_text(*t) + " WHERE "@ + k@ + "=?"@
                &&& r.filter_value matches Some(fv) && fv@ == v@
            } else {
                r.sql@ == select_text(*t) && r.filter_value is None
            },
            None => r.sql@ == select_text(*t) && r.filter_value is None,
        },
{
    let mut sql = select_sql(t);
    match filter {
        Some((k, v)) => {
            if filter_key_allowed(t, k.as_str()) {
                sql.append(" WHERE ");
                sql.append(k.as_str());
                sql.append("=?");
                ListQuery { sql, filter_value: Some(v.clone()) }
            } else {
                ListQuery { sql, filter_value: None }
            }
        },
        None => ListQuery { sql, filter_value: None },
    }
}

} // verus!
