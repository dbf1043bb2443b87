//! What the schema is read from: the catalog queries, which catalog tables
//! are served, and the column descriptor of one catalog row.
use vstd::prelude::*;
use crate::schema::{is_user_table, is_user_table_name, Column};

verus! {

/// Lists the tables of the database.
pub const TABLES_QUERY: &'static str = "select name from sqlite_master where type='table'";

/// Lists the columns of the table bound to `?1`, the implicit `id` left out,
/// each with its declared type, its not-null flag and the table that its
/// foreign key references, if any.
pub const COLUMNS_QUERY: &'static str = "SELECT cols.name as name, cols.type as coltype, cols.`notnull` as `notnull`, fk.`table` as `fk` FROM pragma_table_info(?1) as cols left join pragma_foreign_key_list(?1) as fk on fk.`from` = cols.name where cols.name != 'id'";

/// The names of `names` that are user tables, in order.
pub open spec fn user_table_names(names: Seq<Seq<char>>) -> Seq<Seq<char>>
    decreases names.len(),
{
    if names.len() == 0 {
        Seq::empty()
    } else if is_user_table_name(names.last()) {
        user_table_names(names.drop_last()).push(names.last())
    } else {
        user_table_names(names.drop_last())
    }
}

/// Keeps the catalog tables that are user tables, in catalog order.
pub fn user_tables(names: &Vec<String>) -> (r: Vec<String>)
    ensures
        r@.map_values(|s: String| s@) == user_table_names(names@.map_values(|s: String| s@)),
{
    let ghost all = names@.map_values(|s: String| s@);
    let mut r: Vec<String> = Vec::new();
    let mut i: usize = 0;
    let n = names.len();
    while i < n
        invariant
            n == all.len(),
            i <= n,
            n == names@.len(),
            all == names@.map_values(|s: String| s@),
            r@.map_values(|s: String| s@) == user_table_names(all.take(i as int)),
        decreases n - i,
    {
        let name = names[i].clone();
        let ghost before = r@;
        proof {
            assert(name@ == all[i as int]);
            assert(all.take(i + 1).drop_last() =~= all.take(i as int));
            assert(all.take(i + 1).last() == all[i as int]);
        }
        if is_user_table(name.as_str()) {
            r.push(name);
            assert(r@.map_values(|s: String| s@) =~= before.map_values(|s: String| s@).push(all[i as int]));
        }
        i = i + 1;
    }
    assert(all.take(n as int) =~= all);
    r
}

/// The column of one catalog row; the flag is 1 for a not-null column.
pub fn column_from_catalog(name: String, declared_type: String, not_null: i32, foreign_key: Option<String>) -> (r: Column)
    ensures
        r.name@ == name@,
        r.declared_type@ == declared_type@,
        r.not_null == (not_null == 1),
        r.foreign_key == foreign_key,
{
    Column { name, declared_type, not_null: not_null == 1, foreign_key }
}

} // verus!
