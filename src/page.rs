//! The HTML of the pages: the layout with its navigation, the home page and
//! each table's list page with its filter inputs, editable rows, delete
//! actions, foreign-key and reverse links, and the row for a new record.
use vstd::prelude::*;
use crate::numbers::{decimal_text, int_text};
use crate::records::{value_views, Record, Value, ValueView};
use crate::reverse::{link_pairs, links_into, reverse_links, ReverseLink};
use crate::routes::{admin_path, admin_path_of, table_names};
use crate::schema::{Column, TableSchema};
use crate::text::{owned, text_eq};

verus! {

/// What HTML-escaping turns one character into.
pub open spec fn escape_char(c: char) -> Seq<char> {
    if c == '&' {
        "&amp;"@
    } else if c == '<' {
        "&lt;"@
    } else if c == '>' {
        "&gt;"@
    } else if c == '"' {
        "&quot;"@
    } else {
        seq![c]
    }
}

/// The text with `&`, `<`, `>` and `"` replaced by their entities.
pub open spec fn escaped(s: Seq<char>) -> Seq<char>
    decreases s.len(),
{
    if s.len() == 0 {
        Seq::empty()
    } else {
        escaped(s.drop_last()) + escape_char(s.last())
    }
}

/// Relies on maud::Escaper: `&`, `<`, `>` and `"` become entities and every
/// other character is kept.
#[verifier::external_body]
fn escape_html(s: &str) -> (r: String)
    ensures
        r@ == escaped(s@),
{
    let mut out = String::new();
    let _ = std::fmt::Write::write_str(&mut maud::Escaper::new(&mut out), s);
    out
}

/// The pieces one after another.
pub open spec fn concat(pieces: Seq<Seq<char>>) -> Seq<char>
    decreases pieces.len(),
{
    if pieces.len() == 0 {
        Seq::empty()
    } else {
        concat(pieces.drop_last()) + pieces.last()
    }
}

/// The text shown for a value; a null shows as the null text.
pub open spec fn value_text(v: ValueView) -> Seq<char> {
    match v {
        ValueView::Null => "_AX_NULL"@,
        ValueView::Int(i) => decimal_text(i),
        ValueView::Text(s) => s,
        ValueView::Real(s) => s,
        ValueView::Bytes(_) => Seq::empty(),
    }
}

/// The text shown for a value.
pub fn value_text_of(v: &Value) -> (r: String)
    ensures
        r@ == value_text(v@),
{
    match v {
        Value::Null => owned("_AX_NULL"),
        Value::Int(i) => int_text(*i),
        Value::Text(s) => s.clone(),
        Value::Real(s) => s.clone(),
        Value::Bytes(_) => String::new(),
    }
}

/// The link of a foreign-key value: the referenced table filtered by id.
pub open spec fn foreign_href(target: Seq<char>, v: ValueView) -> Seq<char> {
    admin_path(target) + "?id="@ + value_text(v)
}

pub open spec fn is_blob_column(c: Column) -> bool {
    c.declared_type@ == "BLOB"@
}

/// The cell of one field of a row.
pub open spec fn cell(c: Column, v: ValueView) -> Seq<char> {
    match c.foreign_key {
        Some(target) => "<td><a href=\""@ + escaped(foreign_href(target@, v)) + "\">"@ + escaped(value_text(v))
            + "</a><input type=\"hidden\" name=\""@ + escaped(c.name@) + "\" value=\""@ + escaped(value_text(v))
            + "\"></td>"@,
        None => if is_blob_column(c) {
            "<td><img src=\"mybase64image\"></td>"@
        } else {
            "<td><input type=\"text\" name=\""@ + escaped(c.name@) + "\" value=\""@ + escaped(value_text(v))
                + "\" size=\"10\"></td>"@
        },
    }
}

/// The cell of one field of a row: a link and a hidden input for a foreign
/// key, a placeholder image for binary data, else a text input holding the
/// value or the null text.
pub fn cell_html(c: &Column, v: &Value) -> (r: String)
    ensures
        r@ == cell(*c, v@),
{
    let text = value_text_of(v);
    match &c.foreign_key {
        Some(target) => {
            let mut href = admin_path_of(target.as_str());
            href.append("?id=");
            href.append(text.as_str());
            let mut r = owned("<td><a href=\"");
            r.append(escape_html(href.as_str()).as_str());
            r.append("\">");
            r.append(escape_html(text.as_str()).as_str());
            r.append("</a><input type=\"hidden\" name=\"");
            r.append(escape_html(c.name.as_str()).as_str());
            r.append("\" value=\"");
            r.append(escape_html(text.as_str()).as_str());
            r.append("\"></td>");
            r
        },
        None => {
            proof {
                reveal_strlit("BLOB");
            }
            if text_eq(c.declared_type.as_str(), "BLOB") {
                owned("<td><img src=\"mybase64image\"></td>")
            } else {
                let mut r = owned("<td><input type=\"text\" name=\"");
                r.append(escape_html(c.name.as_str()).as_str());
                r.append("\" value=\"");
                r.append(escape_html(text.as_str()).as_str());
                r.append("\" size=\"10\"></td>");
                r
            }
        },
    }
}

/// The link from a record with id `id` to the records of `source` whose
/// column `column` references it.
pub open spec fn reverse_href(source: Seq<char>, column: Seq<char>, id: int) -> Seq<char> {
    admin_path(source) + "?"@ + column + "="@ + decimal_text(id)
}

/// The link from record `id` to the records that reference it through `link`.
pub fn reverse_link_href(link: &ReverseLink, id: i64) -> (r: String)
    ensures
        r@ == reverse_href(link.source_table@, link.source_column@, id as int),
{
    let mut r = admin_path_of(link.source_table.as_str());
    r.append("?");
    r.append(link.source_column.as_str());
    r.append("=");
    r.append(int_text(id).as_str());
    r
}

pub open spec fn reverse_anchor(l: (Seq<char>, Seq<char>), id: int) -> Seq<char> {
    "<a href=\""@ + escaped(reverse_href(l.0, l.1, id)) + "\">"@ + escaped(l.0) + "</a> "@
}

/// The reverse links of a record: nothing where the table has none.
pub open spec fn reverse_cell(links: Seq<(Seq<char>, Seq<char>)>, id: int) -> Seq<char> {
    if links.len() == 0 {
        Seq::empty()
    } else {
        "reverse "@ + concat(Seq::new(links.len(), |k: int| reverse_anchor(links[k], id)))
    }
}

/// The reverse links of the record with id `id`.
pub fn reverse_cell_html(links: &Vec<ReverseLink>, id: i64) -> (r: String)
    ensures
        r@ == reverse_cell(link_pairs(links@), id as int),
{
    if links.len() == 0 {
        return String::new();
    }
    let ghost f = |k: int| reverse_anchor(link_pairs(links@)[k], id as int);
    let mut r = owned("reverse ");
    let mut i: usize = 0;
    while i < links.len()
        invariant
            i <= links@.len(),
            f == (|k: int| reverse_anchor(link_pairs(links@)[k], id as int)),
            r@ == "reverse "@ + concat(Seq::new(i as nat, f)),
        decreases links@.len() - i,
    {
        let l = &links[i];
        r.append("<a href=\"");
        r.append(escape_html(reverse_link_href(l, id).as_str()).as_str());
        r.append("\">");
        r.append(escape_html(l.source_table.as_str()).as_str());
        r.append("</a> ");
        proof {
            assert(link_pairs(links@)[i as int] == l.pair());
            assert(Seq::new((i + 1) as nat, f).drop_last() =~= Seq::new(i as nat, f));
            assert(r@ =~= "reverse "@ + concat(Seq::new((i + 1) as nat, f)));
        }
        i = i + 1;
    }
    r
}

pub open spec fn row_cells(t: TableSchema, vals: Seq<ValueView>) -> Seq<char> {
    concat(Seq::new(t.columns@.len(), |k: int| cell(t.columns@[k], vals[k])))
}

/// The row of one record: a form that saves it, with its id, reverse links
/// and one cell per field, then a form that deletes it.
pub open spec fn row(t: TableSchema, links: Seq<(Seq<char>, Seq<char>)>, id: int, vals: Seq<ValueView>) -> Seq<char> {
    "<tr id=\"id"@ + decimal_text(id) + "\"><form style=\"display:inline-block\" method=\"post\" action=\""@
        + escaped(admin_path(t.name@)) + "\"><td class=\"rowid\"><label>"@ + decimal_text(id)
        + "<input type=\"hidden\" name=\"id\" value=\""@ + decimal_text(id)
        + "\"></label><div class=\"tooltip\">"@ + reverse_cell(links, id) + "</div></td>"@
        + row_cells(t, vals)
        + "<td><input type=\"submit\" value=\"save\"></td></form><form style=\"display:inline-block\" method=\"post\" action=\""@
        + escaped(admin_path(t.name@) + "/delete"@) + "\"><input type=\"hidden\" name=\"id\" value=\""@
        + decimal_text(id) + "\"><td><input type=\"submit\" value=\"delete\"></td></form></tr>"@
}

/// The cells of a record's fields.
fn row_cells_html(t: &TableSchema, values: &Vec<Value>) -> (r: String)
    requires
        values@.len() == t.columns@.len(),
    ensures
        r@ == row_cells(*t, value_views(values@)),
{
    let ghost vals = value_views(values@);
    let ghost f = |k: int| cell(t.columns@[k], vals[k]);
    let mut r = String::new();
    let mut i: usize = 0;
    while i < t.columns.len()
        invariant
            i <= t.columns@.len(),
            values@.len() == t.columns@.len(),
            vals == value_views(values@),
            f == (|k: int| cell(t.columns@[k], vals[k])),
            r@ == concat(Seq::new(i as nat, f)),
        decreases t.columns@.len() - i,
    {
        r.append(cell_html(&t.columns[i], &values[i]).as_str());
        proof {
            assert(vals[i as int] == values@[i as int]@);
            assert(Seq::new((i + 1) as nat, f).drop_last() =~= Seq::new(i as nat, f));
        }
        i = i + 1;
    }
    r
}

/// The row of one record of table `t`, whose reverse links are `links`.
pub fn row_html(t: &TableSchema, links: &Vec<ReverseLink>, rec: &Record) -> (r: String)
    requires
        rec.values@.len() == t.columns@.len(),
    ensures
        r@ == row(*t, link_pairs(links@), rec.id as int, value_views(rec.values@)),
{
    let id = int_text(rec.id);
    let path = admin_path_of(t.name.as_str());
    let mut delete_path = admin_path_of(t.name.as_str());
    delete_path.append("/delete");
    let mut r = owned("<tr id=\"id");
    r.append(id.as_str());
    r.append("\"><form style=\"display:inline-block\" method=\"post\" action=\"");
    r.append(escape_html(path.as_str()).as_str());
    r.append("\"><td class=\"rowid\"><label>");
    r.append(id.as_str());
    r.append("<input type=\"hidden\" name=\"id\" value=\"");
    r.append(id.as_str());
    r.append("\"></label><div class=\"tooltip\">");
    r.append(reverse_cell_html(links, rec.id).as_str());
    r.append("</div></td>");
    r.append(row_cells_html(t, &rec.values).as_str());
    r.append("<td><input type=\"submit\" value=\"save\"></td></form><form style=\"display:inline-block\" method=\"post\" action=\"");
    r.append(escape_html(delete_path.as_str()).as_str());
    r.append("\"><input type=\"hidden\" name=\"id\" value=\"");
    r.append(id.as_str());
    r.append("\"><td><input type=\"submit\" value=\"delete\"></td></form></tr>");
    r
}

/// How a column's type is labelled in the header.
pub open spec fn type_label(c: Column) -> Seq<char> {
    if c.foreign_key is Some { "FK"@ } else { c.declared_type@ }
}

pub open spec fn head_cell(c: Column) -> Seq<char> {
    "<th>"@ + escaped(c.name@) + "<br>("@ + escaped(type_label(c)) + ")</th>"@
}

pub open spec fn filter_cell(c: Column) -> Seq<char> {
    "<th><form><input name=\""@ + escaped(c.name@) + "\" size=\"10\"></form></th>"@
}

pub open spec fn new_cell(c: Column) -> Seq<char> {
    "<td><input type=\"text\" name=\""@ + escaped(c.name@) + "\" placeholder=\""@ + escaped(c.name@)
        + "\" size=\"10\"></td>"@
}

/// The title, the header row of names and types, and the row of filter inputs.
pub open spec fn list_head(t: TableSchema) -> Seq<char> {
    "<h2>Table "@ + escaped(t.name@) + " <small><a href=\""@ + escaped(admin_path(t.name@))
        + "\">reload</a></small></h2><table class=\"sortable\"><thead><tr><th>id</th>"@
        + concat(Seq::new(t.columns@.len(), |k: int| head_cell(t.columns@[k])))
        + "<th></th><th></th></tr><tr><th><form><input name=\"id\" size=\"5\"></form></th>"@
        + concat(Seq::new(t.columns@.len(), |k: int| filter_cell(t.columns@[k])))
        + "<th></th><th></th></tr></thead><tbody>"@
}

/// The row that inserts a new record: its id is the new-record id.
pub open spec fn list_foot(t: TableSchema) -> Seq<char> {
    "</tbody><tfoot><tr><form method=\"post\" action=\""@ + escaped(admin_path(t.name@))
        + "\"><td><label>new<input type=\"hidden\" name=\"id\" value=\"-1\"></label></td>"@
        + concat(Seq::new(t.columns@.len(), |k: int| new_cell(t.columns@[k])))
        + "<td><input type=\"submit\" value=\"save\"></td><td></td></form></tr></tfoot></table>"@
}

fn head_cell_html(c: &Column) -> (r: String)
    ensures
        r@ == head_cell(*c),
{
    proof {
        reveal_strlit("FK");
    }
    let label = match &c.foreign_key {
        Some(_) => owned("FK"),
        None => c.declared_type.clone(),
    };
    let mut r = owned("<th>");
    r.append(escape_html(c.name.as_str()).as_str());
    r.append("<br>(");
    r.append(escape_html(label.as_str()).as_str());
    r.append(")</th>");
    r
}

fn filter_cell_html(c: &Column) -> (r: String)
    ensures
        r@ == filter_cell(*c),
{
    let mut r = owned("<th><form><input name=\"");
    r.append(escape_html(c.name.as_str()).as_str());
    r.append("\" size=\"10\"></form></th>");
    r
}

fn new_cell_html(c: &Column) -> (r: String)
    ensures
        r@ == new_cell(*c),
{
    let name = escape_html(c.name.as_str());
    let mut r = owned("<td><input type=\"text\" name=\"");
    r.append(name.as_str());
    r.append("\" placeholder=\"");
    r.append(name.as_str());
    r.append("\" size=\"10\"></td>");
    r
}

/// Which piece of a column `column_cells` renders.
#[derive(PartialEq, Eq, Structural, Clone, Copy)]
enum Piece {
    Head,
    Filter,
    New,
}

spec fn piece(p: Piece, c: Column) -> Seq<char> {
    match p {
        Piece::Head => head_cell(c),
        Piece::Filter => filter_cell(c),
        Piece::New => new_cell(c),
    }
}

/// One piece per column, in order.
fn column_cells(t: &TableSchema, p: Piece) -> (r: String)
    ensures
        r@ == concat(Seq::new(t.columns@.len(), |k: int| piece(p, t.columns@[k]))),
{
    let ghost f = |k: int| piece(p, t.columns@[k]);
    let mut r = String::new();
    let mut i: usize = 0;
    while i < t.columns.len()
        invariant
            i <= t.columns@.len(),
            f == (|k: int| piece(p, t.columns@[k])),
            r@ == concat(Seq::new(i as nat, f)),
        decreases t.columns@.len() - i,
    {
        let c = &t.columns[i];
        let s = match p {
            Piece::Head => head_cell_html(c),
            Piece::Filter => filter_cell_html(c),
            Piece::New => new_cell_html(c),
        };
        r.append(s.as_str());
        proof {
            assert(Seq::new((i + 1) as nat, f).drop_last() =~= Seq::new(i as nat, f));
        }
        i = i + 1;
    }
    r
}

fn list_head_html(t: &TableSchema) -> (r: String)
    ensures
        r@ == list_head(*t),
{
    let heads = column_cells(t, Piece::Head);
    let filters = column_cells(t, Piece::Filter);
    proof {
        let n = t.columns@.len();
        assert(Seq::new(n, |k: int| piece(Piece::Head, t.columns@[k])) =~= Seq::new(n, |k: int| head_cell(t.columns@[k])));
        assert(Seq::new(n, |k: int| piece(Piece::Filter, t.columns@[k])) =~= Seq::new(n, |k: int| filter_cell(t.columns@[k])));
    }
    let mut r = owned("<h2>Table ");
    r.append(escape_html(t.name.as_str()).as_str());
    r.append(" <small><a href=\"");
    r.append(escape_html(admin_path_of(t.name.as_str()).as_str()).as_str());
    r.append("\">reload</a></small></h2><table class=\"sortable\"><thead><tr><th>id</th>");
    r.append(heads.as_str());
    r.append("<th></th><th></th></tr><tr><th><form><input name=\"id\" size=\"5\"></form></th>");
    r.append(filters.as_str());
    r.append("<th></th><th></th></tr></thead><tbody>");
    r
}

fn list_foot_html(t: &TableSchema) -> (r: String)
    ensures
        r@ == list_foot(*t),
{
    let news = column_cells(t, Piece::New);
    proof {
        let n = t.columns@.len();
        assert(Seq::new(n, |k: int| piece(Piece::New, t.columns@[k])) =~= Seq::new(n, |k: int| new_cell(t.columns@[k])));
    }
    let mut r = owned("</tbody><tfoot><tr><form method=\"post\" action=\"");
    r.append(escape_html(admin_path_of(t.name.as_str()).as_str()).as_str());
    r.append("\"><td><label>new<input type=\"hidden\" name=\"id\" value=\"-1\"></label></td>");
    r.append(news.as_str());
    r.append("<td><input type=\"submit\" value=\"save\"></td><td></td></form></tr></tfoot></table>");
    r
}

/// Every record has one value per column of `t`.
pub open spec fn records_fit(t: TableSchema, rows: Seq<Record>) -> bool {
    forall|k: int| 0 <= k < rows.len() ==> (#[trigger] rows[k]).values@.len() == t.columns@.len()
}

/// The list of a table: its head, one row per record, and the row for a new
/// record.
pub open spec fn list_body(t: TableSchema, links: Seq<(Seq<char>, Seq<char>)>, rows: Seq<Record>) -> Seq<char> {
    list_head(t)
        + concat(Seq::new(rows.len(), |k: int| row(t, links, rows[k].id as int, value_views(rows[k].values@))))
        + list_foot(t)
}

pub open spec fn nav_link(name: Seq<char>) -> Seq<char> {
    "<a href=\""@ + escaped(admin_path(name)) + "\">"@ + escaped(name) + "</a> "@
}

/// The layout of every page: the stylesheet, a link to each table, the body
/// and the script.
pub open spec fn layout(names: Seq<Seq<char>>, body: Seq<char>) -> Seq<char> {
    "<!DOCTYPE html><html><head><link rel=\"stylesheet\" href=\"/admin/style.css\"></head><body><div>"@
        + concat(Seq::new(names.len(), |k: int| nav_link(names[k]))) + "</div>"@ + body
        + "<script src=\"/admin/script.js\"></script></body></html>"@
}

/// Wraps a page body in the layout, with a link to each table.
pub fn layout_html(tables: &Vec<TableSchema>, body: &str) -> (r: String)
    ensures
        r@ == layout(table_names(tables@), body@),
{
    let ghost names = table_names(tables@);
    let ghost f = |k: int| nav_link(names[k]);
    let mut r = owned("<!DOCTYPE html><html><head><link rel=\"stylesheet\" href=\"/admin/style.css\"></head><body><div>");
    let ghost start = r@;
    let mut nav = String::new();
    let mut i: usize = 0;
    while i < tables.len()
        invariant
            i <= tables@.len(),
            names == table_names(tables@),
            f == (|k: int| nav_link(names[k])),
            nav@ == concat(Seq::new(i as nat, f)),
        decreases tables@.len() - i,
    {
        let name = tables[i].name.as_str();
        nav.append("<a href=\"");
        nav.append(escape_html(admin_path_of(name).as_str()).as_str());
        nav.append("\">");
        nav.append(escape_html(name).as_str());
        nav.append("</a> ");
        proof {
            assert(names[i as int] == name@);
            assert(Seq::new((i + 1) as nat, f).drop_last() =~= Seq::new(i as nat, f));
        }
        i = i + 1;
    }
    r.append(nav.as_str());
    r.append("</div>");
    r.append(body);
    r.append("<script src=\"/admin/script.js\"></script></body></html>");
    r
}

/// The home page: the layout around a welcome line.
pub fn home_page(tables: &Vec<TableSchema>) -> (r: String)
    ensures
        r@ == layout(table_names(tables@), "Welcome to admin"@),
{
    layout_html(tables, "Welcome to admin")
}

/// The list page of the table at `index`, showing `rows`, with each row's
/// reverse links computed from the whole schema.
pub fn list_page(tables: &Vec<TableSchema>, index: usize, rows: &Vec<Record>) -> (r: String)
    requires
        index < tables@.len(),
        records_fit(tables@[index as int], rows@),
    ensures
        r@ == layout(
            table_names(tables@),
            list_body(tables@[index as int], links_into(tables@, tables@[index as int].name@), rows@),
        ),
{
    let t = &tables[index];
    let links = reverse_links(tables, t.name.as_str());
    let ghost pairs = link_pairs(links@);
    let ghost f = |k: int| row(*t, pairs, rows@[k].id as int, value_views(rows@[k].values@));
    let mut body = list_head_html(t);
    let ghost head = body@;
    let mut i: usize = 0;
    while i < rows.len()
        invariant
            i <= rows@.len(),
            *t == tables@[index as int],
            records_fit(*t, rows@),
            pairs == link_pairs(links@),
            f == (|k: int| row(*t, pairs, rows@[k].id as int, value_views(rows@[k].values@))),
            body@ == head + concat(Seq::new(i as nat, f)),
        decreases rows@.len() - i,
    {
        assert(rows@[i as int].values@.len() == t.columns@.len());
        body.append(row_html(t, &links, &rows[i]).as_str());
        proof {
            assert(Seq::new((i + 1) as nat, f).drop_last() =~= Seq::new(i as nat, f));
            assert(body@ =~= head + concat(Seq::new((i + 1) as nat, f)));
        }
        i = i + 1;
    }
    body.append(list_foot_html(t).as_str());
    layout_html(tables, body.as_str())
}

} // verus!
