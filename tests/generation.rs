use adminix::page::{cell_html, home_page, list_page, reverse_link_href, row_html};
use adminix::records::{decode_id, decode_submission, delete_statement, write_statement, FormError, Record, Value};
use adminix::reverse::{reverse_links, ReverseLink};
use adminix::routes::{assemble_routes, Handler, Method};
use adminix::schema::{build_record_shape, is_user_table, map_type, Column, SchemaError, TableSchema, ValueKind};
use adminix::site::generate;
use adminix::sql::{delete_sql, insert_sql, list_query, select_sql, update_sql};

fn col(name: &str, ty: &str, not_null: bool, fk: Option<&str>) -> Column {
    Column {
        name: name.to_string(),
        declared_type: ty.to_string(),
        not_null,
        foreign_key: fk.map(|s| s.to_string()),
    }
}

fn table(name: &str, columns: Vec<Column>) -> TableSchema {
    TableSchema { name: name.to_string(), columns }
}

fn people() -> TableSchema {
    table("t", vec![col("name", "TEXT", true, None), col("age", "INTEGER", false, None)])
}

fn parent_child() -> Vec<TableSchema> {
    vec![
        table("parent", vec![col("label", "TEXT", true, None)]),
        table("child", vec![col("parent_id", "INTEGER", true, Some("parent")), col("note", "TEXT", false, None)]),
    ]
}

fn form(pairs: &[(&str, &str)]) -> Vec<(String, String)> {
    pairs.iter().map(|(k, v)| (k.to_string(), v.to_string())).collect()
}

#[test]
fn type_mapping_covers_every_supported_pair() {
    assert_eq!(map_type("INTEGER", true), Some(ValueKind::Int64));
    assert_eq!(map_type("INTEGER", false), Some(ValueKind::OptionalInt64));
    assert_eq!(map_type("TEXT", true), Some(ValueKind::Text));
    assert_eq!(map_type("TEXT", false), Some(ValueKind::OptionalText));
    assert_eq!(map_type("FLOAT", true), Some(ValueKind::Float32));
    assert_eq!(map_type("FLOAT", false), Some(ValueKind::OptionalFloat32));
    assert_eq!(map_type("BLOB", true), Some(ValueKind::Blob));
    assert_eq!(map_type("BLOB", false), Some(ValueKind::OptionalBlob));
}

#[test]
fn unsupported_type_is_refused() {
    assert_eq!(map_type("VARCHAR", true), None);
    assert_eq!(map_type("integer", false), None);
    assert_eq!(map_type("", true), None);
    let t = table("u", vec![col("a", "TEXT", true, None), col("when", "DATETIME", false, None)]);
    match build_record_shape(&t) {
        Err(SchemaError::UnsupportedType { table, column, declared }) => {
            assert_eq!(table, "u");
            assert_eq!(column, "when");
            assert_eq!(declared, "DATETIME");
        }
        other => panic!("unexpected {:?}", other),
    }
    assert!(matches!(generate(vec![people(), t]), Err(SchemaError::UnsupportedType { .. })));
}

#[test]
fn record_shape_follows_columns() {
    let shape = build_record_shape(&parent_child()[1]).unwrap();
    assert_eq!(shape.table, "child");
    assert_eq!(shape.fields.len(), 2);
    assert_eq!(shape.fields[0].name, "parent_id");
    assert_eq!(shape.fields[0].kind, ValueKind::Int64);
    assert!(shape.fields[0].is_foreign_key);
    assert_eq!(shape.fields[1].kind, ValueKind::OptionalText);
    assert!(!shape.fields[1].is_foreign_key);
}

#[test]
fn reserved_tables_are_not_user_tables() {
    assert!(!is_user_table("sqlite_sequence"));
    assert!(!is_user_table("__migrations"));
    assert!(is_user_table("_single"));
    assert!(is_user_table("person"));
}

#[test]
fn reverse_links_invert_foreign_keys() {
    let mut tables = parent_child();
    tables.push(table(
        "toy",
        vec![col("owner", "INTEGER", false, Some("child")), col("maker", "INTEGER", true, Some("parent"))],
    ));
    let links = reverse_links(&tables, "parent");
    let pairs: Vec<(String, String)> = links.into_iter().map(|l| (l.source_table, l.source_column)).collect();
    assert_eq!(pairs, vec![("child".to_string(), "parent_id".to_string()), ("toy".to_string(), "maker".to_string())]);
    assert_eq!(reverse_links(&tables, "child").len(), 1);
    assert!(reverse_links(&tables, "toy").is_empty());
}

#[test]
fn self_reference_is_a_reverse_link() {
    let tables = vec![table("node", vec![col("up", "INTEGER", false, Some("node"))])];
    let links = reverse_links(&tables, "node");
    assert_eq!(links.len(), 1);
    assert_eq!(links[0].source_table, "node");
    assert_eq!(links[0].source_column, "up");
}

#[test]
fn statement_texts() {
    let t = people();
    assert_eq!(select_sql(&t), "SELECT id,name,age FROM t");
    assert_eq!(insert_sql(&t), "insert into t(name,age) values (?,?)");
    assert_eq!(update_sql(&t), "update t set name=?,age=? where id=?");
    assert_eq!(delete_sql(&t), "delete from t where id=?");
    assert_eq!(select_sql(&table("bare", vec![])), "SELECT id FROM bare");
}

#[test]
fn filter_on_known_column() {
    let q = list_query(&people(), &Some(("age".to_string(), "30".to_string())));
    assert_eq!(q.sql, "SELECT id,name,age FROM t WHERE age=?");
    assert_eq!(q.filter_value, Some("30".to_string()));
    let q = list_query(&people(), &Some(("id".to_string(), "4".to_string())));
    assert_eq!(q.sql, "SELECT id,name,age FROM t WHERE id=?");
}

#[test]
fn filter_on_unknown_key_is_ignored() {
    let q = list_query(&people(), &Some(("bogus".to_string(), "x".to_string())));
    assert_eq!(q.sql, "SELECT id,name,age FROM t");
    assert_eq!(q.filter_value, None);
    let q = list_query(&people(), &None);
    assert_eq!(q.sql, "SELECT id,name,age FROM t");
}

#[test]
fn filter_value_is_never_spliced() {
    let q = list_query(&people(), &Some(("age".to_string(), "1 or 1=1".to_string())));
    assert!(!q.sql.contains("1=1"));
    assert_eq!(q.filter_value, Some("1 or 1=1".to_string()));
}

#[test]
fn new_record_id_inserts() {
    let t = people();
    let shape = build_record_shape(&t).unwrap();
    let rec = decode_submission(&shape, &form(&[("id", "-1"), ("name", "Ann"), ("age", "30")])).unwrap();
    assert_eq!(rec.id, -1);
    let st = write_statement(&t, rec);
    assert_eq!(st.sql, "insert into t(name,age) values (?,?)");
    assert_eq!(st.params.len(), 2);
    assert!(matches!(&st.params[0], Value::Text(s) if s == "Ann"));
    assert!(matches!(&st.params[1], Value::Int(30)));
}

#[test]
fn other_id_updates() {
    let t = people();
    let shape = build_record_shape(&t).unwrap();
    let rec = decode_submission(&shape, &form(&[("name", "Bo"), ("age", "_AX_NULL"), ("id", "7")])).unwrap();
    let st = write_statement(&t, rec);
    assert_eq!(st.sql, "update t set name=?,age=? where id=?");
    assert_eq!(st.params.len(), 3);
    assert!(matches!(&st.params[1], Value::Null));
    assert!(matches!(&st.params[2], Value::Int(7)));
}

#[test]
fn delete_binds_the_id() {
    let st = delete_statement(&people(), 99);
    assert_eq!(st.sql, "delete from t where id=?");
    assert_eq!(st.params.len(), 1);
    assert!(matches!(&st.params[0], Value::Int(99)));
}

#[test]
fn form_errors() {
    let shape = build_record_shape(&people()).unwrap();
    assert_eq!(
        decode_submission(&shape, &form(&[("name", "x")])).unwrap_err(),
        FormError::Missing { field: "id".to_string() }
    );
    assert_eq!(
        decode_submission(&shape, &form(&[("id", "1x"), ("name", "x")])).unwrap_err(),
        FormError::BadInteger { field: "id".to_string() }
    );
    assert_eq!(
        decode_submission(&shape, &form(&[("id", "1")])).unwrap_err(),
        FormError::Missing { field: "name".to_string() }
    );
    assert_eq!(
        decode_submission(&shape, &form(&[("id", "1"), ("name", "x"), ("age", "old")])).unwrap_err(),
        FormError::BadInteger { field: "age".to_string() }
    );
    let blob = build_record_shape(&table("b", vec![col("data", "BLOB", true, None)])).unwrap();
    assert_eq!(
        decode_submission(&blob, &form(&[("id", "1"), ("data", "xyz")])).unwrap_err(),
        FormError::BinaryField { field: "data".to_string() }
    );
}

#[test]
fn absent_optional_field_is_null() {
    let shape = build_record_shape(&people()).unwrap();
    let rec = decode_submission(&shape, &form(&[("id", "+5"), ("name", "")])).unwrap();
    assert_eq!(rec.id, 5);
    assert!(matches!(&rec.values[0], Value::Text(s) if s.is_empty()));
    assert!(matches!(&rec.values[1], Value::Null));
}

#[test]
fn integer_limits() {
    let shape = build_record_shape(&people()).unwrap();
    let rec = decode_submission(&shape, &form(&[("id", "9223372036854775807"), ("name", "n"), ("age", "-9223372036854775808")])).unwrap();
    assert_eq!(rec.id, i64::MAX);
    assert!(matches!(&rec.values[1], Value::Int(v) if *v == i64::MIN));
    assert!(decode_submission(&shape, &form(&[("id", "9223372036854775808"), ("name", "n")])).is_err());
}

#[test]
fn reverse_link_filters_by_the_row_id() {
    let link = ReverseLink { source_table: "child".to_string(), source_column: "parent_id".to_string() };
    assert_eq!(reverse_link_href(&link, 3), "/admin/child?parent_id=3");
    assert_eq!(reverse_link_href(&link, -12), "/admin/child?parent_id=-12");
}

#[test]
fn parent_row_links_to_children() {
    let tables = parent_child();
    let links = reverse_links(&tables, "parent");
    let rec = Record { id: 3, values: vec![Value::Text("p".to_string())] };
    let html = row_html(&tables[0], &links, &rec);
    assert!(html.contains("<a href=\"/admin/child?parent_id=3\">child</a>"));
    assert!(html.starts_with("<tr id=\"id3\">"));
    assert!(html.contains("action=\"/admin/parent/delete\""));
}

#[test]
fn row_without_reverse_links_has_none() {
    let tables = parent_child();
    let links = reverse_links(&tables, "child");
    let rec = Record { id: 1, values: vec![Value::Int(3), Value::Null] };
    let html = row_html(&tables[1], &links, &rec);
    assert!(!html.contains("reverse"));
    assert!(html.contains("<a href=\"/admin/parent?id=3\">3</a>"));
    assert!(html.contains("name=\"note\" value=\"_AX_NULL\""));
}

#[test]
fn cells_escape_values() {
    let c = col("name", "TEXT", true, None);
    let html = cell_html(&c, &Value::Text("<b>\"A&B\"</b>".to_string()));
    assert_eq!(
        html,
        "<td><input type=\"text\" name=\"name\" value=\"&lt;b&gt;&quot;A&amp;B&quot;&lt;/b&gt;\" size=\"10\"></td>"
    );
    let blob = col("data", "BLOB", false, None);
    assert_eq!(cell_html(&blob, &Value::Bytes(vec![1, 2])), "<td><img src=\"mybase64image\"></td>");
}

#[test]
fn list_page_shows_rows_and_insert_row() {
    let tables = parent_child();
    let rows = vec![
        Record { id: 1, values: vec![Value::Text("a".to_string())] },
        Record { id: 2, values: vec![Value::Text("b".to_string())] },
    ];
    let html = list_page(&tables, 0, &rows);
    assert!(html.starts_with("<!DOCTYPE html>"));
    assert!(html.contains("<a href=\"/admin/parent\">parent</a> <a href=\"/admin/child\">child</a> "));
    assert!(html.contains("<th>label<br>(TEXT)</th>"));
    assert!(html.contains("<tr id=\"id1\">"));
    assert!(html.contains("<tr id=\"id2\">"));
    assert!(html.contains("name=\"id\" value=\"-1\""));
    assert_eq!(html.matches("<tr id=").count(), 2);
    let child = list_page(&tables, 1, &vec![]);
    assert!(child.contains("<th>parent_id<br>(FK)</th>"));
}

#[test]
fn home_page_lists_tables() {
    let html = home_page(&parent_child());
    assert!(html.contains("Welcome to admin"));
    assert!(html.contains("href=\"/admin/style.css\""));
    assert!(html.contains("src=\"/admin/script.js\""));
}

#[test]
fn route_table_layout() {
    let routes = assemble_routes(&parent_child());
    assert_eq!(routes.len(), 9);
    assert_eq!(routes[0].path, "/admin/");
    assert_eq!(routes[1].path, "/admin/style.css");
    assert_eq!(routes[2].path, "/admin/script.js");
    assert_eq!(routes[3].path, "/admin/parent");
    assert_eq!(routes[3].method, Method::Get);
    assert_eq!(routes[4].method, Method::Post);
    assert_eq!(routes[4].handler, Handler::Write(0));
    assert_eq!(routes[8].path, "/admin/child/delete");
    assert_eq!(routes[8].handler, Handler::Delete(1));
}

#[test]
fn generated_routes_are_unique() {
    let site = generate(parent_child()).unwrap();
    assert_eq!(site.shapes.len(), 2);
    for i in 0..site.routes.len() {
        for j in (i + 1)..site.routes.len() {
            assert!(site.routes[i].path != site.routes[j].path || site.routes[i].method != site.routes[j].method);
        }
    }
}

#[test]
fn generation_rejects_bad_names() {
    let dup = vec![people(), people()];
    assert!(matches!(generate(dup), Err(SchemaError::DuplicateTable { name }) if name == "t"));
    let slash = vec![table("a/delete", vec![])];
    assert!(matches!(generate(slash), Err(SchemaError::InvalidName { .. })));
    let dotted = vec![table("style.css", vec![])];
    assert!(matches!(generate(dotted), Err(SchemaError::InvalidName { .. })));
    let bad_col = vec![table("ok", vec![col("has space", "TEXT", true, None)])];
    assert!(matches!(generate(bad_col), Err(SchemaError::InvalidName { name }) if name == "has space"));
}

#[test]
fn catalog_rows_become_columns() {
    let c = adminix::catalog::column_from_catalog("age".to_string(), "INTEGER".to_string(), 1, None);
    assert!(c.not_null);
    assert_eq!(c.name, "age");
    let c = adminix::catalog::column_from_catalog("p".to_string(), "INTEGER".to_string(), 0, Some("parent".to_string()));
    assert!(!c.not_null);
    assert_eq!(c.foreign_key, Some("parent".to_string()));
}

#[test]
fn catalog_keeps_user_tables_in_order() {
    let names: Vec<String> = ["person", "sqlite_sequence", "__meta", "pet"].iter().map(|s| s.to_string()).collect();
    assert_eq!(adminix::catalog::user_tables(&names), vec!["person".to_string(), "pet".to_string()]);
    assert!(adminix::catalog::user_tables(&vec![]).is_empty());
}

#[test]
fn delete_form_id() {
    assert_eq!(decode_id(&form(&[("id", "12")])), Ok(12));
    assert_eq!(decode_id(&form(&[("x", "1"), ("id", "-3"), ("id", "4")])), Ok(-3));
    assert_eq!(decode_id(&form(&[])), Err(FormError::Missing { field: "id".to_string() }));
    assert_eq!(decode_id(&form(&[("id", " 1")])), Err(FormError::BadInteger { field: "id".to_string() }));
}

#[test]
fn empty_schema_has_the_fixed_routes() {
    let site = generate(vec![]).unwrap();
    assert_eq!(site.routes.len(), 3);
    assert_eq!(site.routes[0].handler, Handler::Home);
}
