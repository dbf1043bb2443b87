//! Generation of the whole site from a schema: validation, record shapes and
//! the route table, all before any request is served.
use vstd::prelude::*;
use crate::schema::{build_record_shape, identifier_ok, columns_supported, is_identifier, is_shape_of, is_unsupported_at, RecordShape, SchemaError, TableSchema};
use crate::routes::{assemble_routes, lemma_route_table_unique, names_valid, route_entries, route_table, table_names, Route};
use crate::text::text_eq;

verus! {

/// What is generated once from the schema and then only read.
#[derive(Clone, Debug)]
pub struct Site {
    pub tables: Vec<TableSchema>,
    pub shapes: Vec<RecordShape>,
    pub routes: Vec<Route>,
}

/// The column names of table `t` are identifiers.
pub open spec fn column_names_valid(t: TableSchema) -> bool {
    forall|i: int| 0 <= i < t.columns@.len() ==> is_identifier(#[trigger] t.columns@[i].name@)
}

/// A schema that can be served: table names are distinct identifiers, column
/// names are identifiers and every column declares a supported type.
pub open spec fn schema_valid(tables: Seq<TableSchema>) -> bool {
    &&& names_valid(table_names(tables))
    &&& forall|i: int| 0 <= i < tables.len() ==> column_names_valid(#[trigger] tables[i])
    &&& forall|i: int| 0 <= i < tables.len() ==> columns_supported(#[trigger] tables[i])
}

/// `name` is the name of table `t` or of one of its columns.
pub open spec fn holds_name(t: TableSchema, name: Seq<char>) -> bool {
    t.name@ == name || exists|i: int| 0 <= i < t.columns@.len() && t.columns@[i].name@ == name
}

/// `e` is an error that the schema gives: a column of an unsupported type, a
/// name that is not an identifier, or a table name used twice.
pub open spec fn schema_error_of(tables: Seq<TableSchema>, e: SchemaError) -> bool {
    match e {
        SchemaError::UnsupportedType { .. } => exists|t: int, i: int|
            0 <= t < tables.len() && #[trigger] is_unsupported_at(e, tables[t], i),
        SchemaError::InvalidName { name } => !is_identifier(name@) && exists|t: int|
            0 <= t < tables.len() && #[trigger] holds_name(tables[t], name@),
        SchemaError::DuplicateTable { name } => exists|a: int, b: int|
            0 <= a < b < tables.len() && #[trigger] tables[a].name@ == name@ && #[trigger] tables[b].name@ == name@,
    }
}

/// Whether `name` equals one of the first `n` table names.
fn name_taken(tables: &Vec<TableSchema>, n: usize, name: &str) -> (r: Option<usize>)
    requires
        n <= tables@.len(),
    ensures
        r matches Some(a) ==> a < n && tables@[a as int].name@ == name@,
        r is None ==> forall|a: int| 0 <= a < n ==> tables@[a].name@ != name@,
{
    let mut a: usize = 0;
    while a < n
        invariant
            n <= tables@.len(),
            a <= n,
            forall|k: int| 0 <= k < a ==> tables@[k].name@ != name@,
        decreases n - a,
    {
        if text_eq(tables[a].name.as_str(), name) {
            return Some(a);
        }
        a = a + 1;
    }
    None
}

/// Validates the schema and generates the record shapes and the route table.
/// A schema with an unsupported column type, a name that is not an
/// identifier or two tables of one name gives an error and no route.
pub fn generate(tables: Vec<TableSchema>) -> (r: Result<Site, SchemaError>)
    ensures
        r is Ok <==> schema_valid(tables@),
        r matches Ok(site) ==> {
            &&& site.tables@ == tables@
            &&& site.shapes@.len() == tables@.len()
            &&& forall|i: int| 0 <= i < tables@.len() ==> is_shape_of(#[trigger] site.shapes@[i], tables@[i])
            &&& route_entries(site.routes@) == route_table(table_names(tables@))
            &&& forall|i: int, j: int| #![trigger site.routes@[i], site.routes@[j]]
                0 <= i < j < site.routes@.len() ==> site.routes@[i].path@ != site.routes@[j].path@
                    || site.routes@[i].method != site.routes@[j].method
        },
        r matches Err(e) ==> schema_error_of(tables@, e),
{
    let mut shapes: Vec<RecordShape> = Vec::new();
    let mut i: usize = 0;
    while i < tables.len()
        invariant
            i <= tables@.len(),
            shapes@.len() == i,
            forall|k: int| 0 <= k < i ==> is_shape_of(#[trigger] shapes@[k], tables@[k]),
            schema_valid(tables@.take(i as int)),
        decreases tables@.len() - i,
    {
        let t = &tables[i];
        if !identifier_ok(t.name.as_str()) {
            let e = SchemaError::InvalidName { name: t.name.clone() };
            assert(schema_error_of(tables@, e)) by {
                assert(holds_name(tables@[i as int], t.name@));
            }
            assert(table_names(tables@)[i as int] == t.name@);
            return Err(e);
        }
        match name_taken(&tables, i, t.name.as_str()) {
            Some(a) => {
                let e = SchemaError::DuplicateTable { name: t.name.clone() };
                assert(tables@[a as int].name@ == t.name@);
                assert(tables@[i as int].name@ == t.name@);
                assert(table_names(tables@)[a as int] == table_names(tables@)[i as int]);
                return Err(e);
            },
            None => {},
        }
        let mut j: usize = 0;
        while j < t.columns.len()
            invariant
                i < tables@.len(),
                *t == tables@[i as int],
                j <= t.columns@.len(),
                forall|k: int| 0 <= k < j ==> is_identifier(#[trigger] t.columns@[k].name@),
            decreases t.columns@.len() - j,
        {
            if !identifier_ok(t.columns[j].name.as_str()) {
                let name = t.columns[j].name.clone();
                assert(tables@[i as int].columns@[j as int].name@ == name@);
                let e = SchemaError::InvalidName { name };
                assert(!column_names_valid(tables@[i as int]));
                assert(schema_error_of(tables@, e)) by {
                    let tt = tables@[i as int];
                    assert(0 <= j < tt.columns@.len() && tt.columns@[j as int].name@ == name@);
                    assert(holds_name(tt, name@));
                }
                return Err(e);
            }
            j = j + 1;
        }
        match build_record_shape(t) {
            Ok(s) => {
                shapes.push(s);
            },
            Err(e) => {
                assert(schema_error_of(tables@, e)) by {
                    let c = choose|c: int| is_unsupported_at(e, *t, c);
                    assert(is_unsupported_at(e, tables@[i as int], c));
                }
                assert(!columns_supported(tables@[i as int]));
                return Err(e);
            },
        }
        proof {
            let p = tables@.take(i + 1);
            assert(p.drop_last() =~= tables@.take(i as int));
            assert(table_names(p).drop_last() =~= table_names(tables@.take(i as int)));
            assert forall|a: int, b: int| 0 <= a < b < table_names(p).len() implies table_names(p)[a] != table_names(p)[b] by {
                if b < i {
                    assert(table_names(tables@.take(i as int))[a] == table_names(p)[a]);
                    assert(table_names(tables@.take(i as int))[b] == table_names(p)[b]);
                } else {
                    assert(table_names(p)[a] == tables@[a].name@);
                }
            }
            assert forall|a: int| 0 <= a < table_names(p).len() implies is_identifier(#[trigger] table_names(p)[a]) by {
                if a < i {
                    assert(table_names(tables@.take(i as int))[a] == table_names(p)[a]);
                }
            }
            assert forall|a: int| 0 <= a < p.len() implies column_names_valid(#[trigger] p[a]) && columns_supported(p[a]) by {
                if a < i {
                    assert(tables@.take(i as int)[a] == p[a]);
                }
            }
        }
        i = i + 1;
    }
    assert(tables@.take(i as int) =~= tables@);
    let routes = assemble_routes(&tables);
    proof {
        lemma_route_table_unique(table_names(tables@));
        let l = route_table(table_names(tables@));
        assert forall|a: int, b: int| #![trigger routes@[a], routes@[b]]
            0 <= a < b < routes@.len() implies routes@[a].path@ != routes@[b].path@
                || routes@[a].method != routes@[b].method by {
            assert(route_entries(routes@)[a] == routes@[a].entry());
            assert(route_entries(routes@)[b] == routes@[b].entry());
            assert(l[a].0 != l[b].0 || l[a].1 != l[b].1);
        }
    }
    Ok(Site { tables, shapes, routes })
}

} // verus!
