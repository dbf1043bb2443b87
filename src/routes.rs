//! The route table: the home page, the two static assets, and for each table
//! its list, write and delete endpoints.
use vstd::prelude::*;
use crate::schema::{is_identifier, TableSchema};
use crate::text::owned;

verus! {

/// The HTTP method of a route.
#[derive(PartialEq, Eq, Structural, Clone, Copy, Debug)]
pub enum Method {
    Get,
    Post,
}

/// What serves a route; the index is the table's position in the schema.
#[derive(PartialEq, Eq, Structural, Clone, Copy, Debug)]
pub enum Handler {
    Home,
    Stylesheet,
    Script,
    List(usize),
    Write(usize),
    Delete(usize),
}

/// One entry of the route table.
#[derive(Clone, Debug)]
pub struct Route {
    pub path: String,
    pub method: Method,
    pub handler: Handler,
}

impl Route {
    pub open spec fn entry(self) -> (Seq<char>, Method, Handler) {
        (self.path@, self.method, self.handler)
    }
}

/// The path under the admin root for a segment.
pub open spec fn admin_path(segment: Seq<char>) -> Seq<char> {
    "/admin/"@ + segment
}

pub open spec fn delete_segment(table: Seq<char>) -> Seq<char> {
    table + "/delete"@
}

/// The routes that do not depend on the schema.
pub open spec fn fixed_routes() -> Seq<(Seq<char>, Method, Handler)> {
    seq![
        (admin_path(Seq::empty()), Method::Get, Handler::Home),
        (admin_path("style.css"@), Method::Get, Handler::Stylesheet),
        (admin_path("script.js"@), Method::Get, Handler::Script),
    ]
}

/// The three routes of the table `name` at position `i`.
pub open spec fn routes_of_table(name: Seq<char>, i: int) -> Seq<(Seq<char>, Method, Handler)> {
    seq![
        (admin_path(name), Method::Get, Handler::List(i as usize)),
        (admin_path(name), Method::Post, Handler::Write(i as usize)),
        (admin_path(delete_segment(name)), Method::Post, Handler::Delete(i as usize)),
    ]
}

pub open spec fn table_routes(names: Seq<Seq<char>>) -> Seq<(Seq<char>, Method, Handler)>
    decreases names.len(),
{
    if names.len() == 0 {
        Seq::empty()
    } else {
        table_routes(names.drop_last()) + routes_of_table(names.last(), names.len() - 1)
    }
}

/// The whole route table for tables named `names`, in order.
pub open spec fn route_table(names: Seq<Seq<char>>) -> Seq<(Seq<char>, Method, Handler)> {
    fixed_routes() + table_routes(names)
}

pub open spec fn table_names(tables: Seq<TableSchema>) -> Seq<Seq<char>> {
    tables.map_values(|t: TableSchema| t.name@)
}

/// Every name is an identifier and no two are equal.
pub open spec fn names_valid(names: Seq<Seq<char>>) -> bool {
    &&& forall|i: int| 0 <= i < names.len() ==> is_identifier(#[trigger] names[i])
    &&& forall|i: int, j: int| 0 <= i < j < names.len() ==> names[i] != names[j]
}

pub open spec fn route_entries(routes: Seq<Route>) -> Seq<(Seq<char>, Method, Handler)> {
    routes.map_values(|r: Route| r.entry())
}

/// The path under the admin root for a segment.
pub fn admin_path_of(segment: &str) -> (r: String)
    ensures
        r@ == admin_path(segment@),
{
    let mut r = owned("/admin/");
    r.append(segment);
    r
}

proof fn lemma_entries_push(s: Seq<Route>, r: Route)
    ensures
        route_entries(s.push(r)) == route_entries(s).push(r.entry()),
{
    assert(route_entries(s.push(r)) =~= route_entries(s).push(r.entry()));
}

/// Builds the route table of the tables, in schema order.
pub fn assemble_routes(tables: &Vec<TableSchema>) -> (r: Vec<Route>)
    ensures
        route_entries(r@) == route_table(table_names(tables@)),
{
    let mut routes: Vec<Route> = Vec::new();
    let home = Route { path: admin_path_of(""), method: Method::Get, handler: Handler::Home };
    let style = Route { path: admin_path_of("style.css"), method: Method::Get, handler: Handler::Stylesheet };
    let script = Route { path: admin_path_of("script.js"), method: Method::Get, handler: Handler::Script };
    routes.push(home);
    routes.push(style);
    routes.push(script);
    proof {
        reveal_strlit("");
        assert(route_entries(routes@) =~= fixed_routes());
    }
    let mut i: usize = 0;
    while i < tables.len()
        invariant
            i <= tables@.len(),
            route_entries(routes@) == route_table(table_names(tables@).take(i as int)),
        decreases tables@.len() - i,
    {
        let name = tables[i].name.as_str();
        let list = Route { path: admin_path_of(name), method: Method::Get, handler: Handler::List(i) };
        let write = Route { path: admin_path_of(name), method: Method::Post, handler: Handler::Write(i) };
        let mut seg = owned(name);
        seg.append("/delete");
        let delete = Route { path: admin_path_of(seg.as_str()), method: Method::Post, handler: Handler::Delete(i) };
        let ghost s0 = routes@;
        routes.push(list);
        let ghost s1 = routes@;
        routes.push(write);
        let ghost s2 = routes@;
        routes.push(delete);
        proof {
            lemma_entries_push(s0, list);
            lemma_entries_push(s1, write);
            lemma_entries_push(s2, delete);
            let names = table_names(tables@);
            assert(names.take(i + 1).drop_last() =~= names.take(i as int));
            assert(names.take(i + 1).last() == tables@[i as int].name@);
            assert(route_entries(routes@) =~= route_table(names.take(i + 1)));
        }
        i = i + 1;
    }
    assert(table_names(tables@).take(i as int) =~= table_names(tables@));
    routes
}

/// `c` occurs in `s`.
pub open spec fn has_char(s: Seq<char>, c: char) -> bool {
    exists|i: int| 0 <= i < s.len() && s[i] == c
}

proof fn lemma_admin_path_injective(a: Seq<char>, b: Seq<char>)
    requires
        admin_path(a) == admin_path(b),
    ensures
        a == b,
{
    let p = "/admin/"@;
    assert(a =~= admin_path(a).subrange(p.len() as int, admin_path(a).len() as int));
    assert(b =~= admin_path(b).subrange(p.len() as int, admin_path(b).len() as int));
}

proof fn lemma_delete_segment_injective(a: Seq<char>, b: Seq<char>)
    requires
        delete_segment(a) == delete_segment(b),
    ensures
        a == b,
{
    reveal_strlit("/delete");
    assert(delete_segment(a).len() == a.len() + 7);
    assert(delete_segment(b).len() == b.len() + 7);
    assert(a =~= delete_segment(a).subrange(0, a.len() as int));
    assert(b =~= delete_segment(b).subrange(0, b.len() as int));
}

proof fn lemma_identifier_lacks(s: Seq<char>, c: char)
    requires
        is_identifier(s),
        c == '/' || c == '.',
    ensures
        !has_char(s, c),
{
    if has_char(s, c) {
        let i = choose|i: int| 0 <= i < s.len() && s[i] == c;
        assert(crate::schema::is_ident_char(s[i]));
    }
}

/// The segments of the routes of tables with valid names.
pub open spec fn is_table_segment(names: Seq<Seq<char>>, seg: Seq<char>) -> bool {
    exists|k: int| 0 <= k < names.len() && (seg == names[k] || seg == delete_segment(names[k]))
}

proof fn lemma_table_routes_segments(names: Seq<Seq<char>>)
    ensures
        forall|k: int| 0 <= k < table_routes(names).len() ==> exists|seg: Seq<char>|
            #[trigger] table_routes(names)[k].0 == admin_path(seg) && is_table_segment(names, seg),
    decreases names.len(),
{
    if names.len() > 0 {
        let rest = names.drop_last();
        lemma_table_routes_segments(rest);
        let l = table_routes(names);
        let lr = table_routes(rest);
        assert forall|k: int| 0 <= k < l.len() implies exists|seg: Seq<char>|
            #[trigger] l[k].0 == admin_path(seg) && is_table_segment(names, seg) by {
            if k < lr.len() {
                assert(l[k] == lr[k]);
                let seg = choose|seg: Seq<char>| #[trigger] lr[k].0 == admin_path(seg) && is_table_segment(rest, seg);
                let j = choose|j: int| 0 <= j < rest.len() && (seg == rest[j] || seg == delete_segment(rest[j]));
                assert(rest[j] == names[j]);
                assert(is_table_segment(names, seg));
            } else {
                let last = names.len() - 1;
                if k == lr.len() || k == lr.len() + 1 {
                    assert(l[k].0 == admin_path(names[last]));
                    assert(is_table_segment(names, names[last]));
                } else {
                    assert(l[k].0 == admin_path(delete_segment(names[last])));
                    assert(is_table_segment(names, delete_segment(names[last])));
                }
            }
        }
    }
}

proof fn lemma_delete_segment_has_slash(a: Seq<char>)
    ensures
        has_char(delete_segment(a), '/'),
        !has_char(delete_segment(a), '.') <== !has_char(a, '.'),
        delete_segment(a).len() > 0,
{
    reveal_strlit("/delete");
    let d = delete_segment(a);
    assert(d[a.len() as int] == '/');
    if !has_char(a, '.') && has_char(d, '.') {
        let i = choose|i: int| 0 <= i < d.len() && d[i] == '.';
        if i < a.len() {
            assert(a[i] == d[i]);
        } else {
            assert(d[i] == "/delete"@[i - a.len()]);
        }
    }
}

proof fn lemma_segment_shape(names: Seq<Seq<char>>, seg: Seq<char>)
    requires
        names_valid(names),
        is_table_segment(names, seg),
    ensures
        !has_char(seg, '.'),
        seg.len() > 0,
{
    let k = choose|k: int| 0 <= k < names.len() && (seg == names[k] || seg == delete_segment(names[k]));
    assert(is_identifier(names[k]));
    lemma_identifier_lacks(names[k], '.');
    lemma_delete_segment_has_slash(names[k]);
}

proof fn lemma_table_routes_distinct(names: Seq<Seq<char>>)
    requires
        names_valid(names),
    ensures
        forall|i: int, j: int| #![trigger table_routes(names)[i], table_routes(names)[j]]
            0 <= i < j < table_routes(names).len() ==> table_routes(names)[i].0 != table_routes(names)[j].0
                || table_routes(names)[i].1 != table_routes(names)[j].1,
    decreases names.len(),
{
    if names.len() > 0 {
        let rest = names.drop_last();
        let n = names.last();
        let last = names.len() - 1;
        assert(names_valid(rest)) by {
            assert forall|i: int| 0 <= i < rest.len() implies is_identifier(#[trigger] rest[i]) by {
                assert(rest[i] == names[i]);
            }
        }
        lemma_table_routes_distinct(rest);
        lemma_table_routes_segments(rest);
        assert(is_identifier(names[last]));
        lemma_identifier_lacks(n, '/');
        lemma_delete_segment_has_slash(n);
        let l = table_routes(names);
        let lr = table_routes(rest);
        assert forall|i: int, j: int| #![trigger l[i], l[j]]
            0 <= i < j < l.len() implies l[i].0 != l[j].0 || l[i].1 != l[j].1 by {
            if j < lr.len() {
                assert(l[i] == lr[i] && l[j] == lr[j]);
            } else if i >= lr.len() {
                let rt = routes_of_table(n, last);
                assert(l[i] == rt[i - lr.len()] && l[j] == rt[j - lr.len()]);
                if l[i].0 == l[j].0 && l[i].1 == l[j].1 {
                    lemma_admin_path_injective(n, delete_segment(n));
                    assert(n.len() != delete_segment(n).len());
                }
            } else {
                assert(l[i] == lr[i]);
                let seg = choose|seg: Seq<char>| #[trigger] lr[i].0 == admin_path(seg) && is_table_segment(rest, seg);
                let k = choose|k: int| 0 <= k < rest.len() && (seg == rest[k] || seg == delete_segment(rest[k]));
                assert(rest[k] == names[k]);
                assert(is_identifier(names[k]));
                assert(names[k] != n);
                lemma_identifier_lacks(names[k], '/');
                lemma_delete_segment_has_slash(names[k]);
                let nseg = if j < lr.len() + 2 { n } else { delete_segment(n) };
                assert(l[j].0 == admin_path(nseg));
                if l[i].0 == l[j].0 {
                    lemma_admin_path_injective(seg, nseg);
                    if seg == delete_segment(names[k]) && nseg == delete_segment(n) {
                        lemma_delete_segment_injective(names[k], n);
                    }
                }
            }
        }
    }
}

/// No two routes of the table share both path and method, for tables whose
/// names are distinct identifiers.
pub proof fn lemma_route_table_unique(names: Seq<Seq<char>>)
    requires
        names_valid(names),
    ensures
        forall|i: int, j: int| #![trigger route_table(names)[i], route_table(names)[j]]
            0 <= i < j < route_table(names).len() ==> route_table(names)[i].0 != route_table(names)[j].0
                || route_table(names)[i].1 != route_table(names)[j].1,
{
    reveal_strlit("style.css");
    reveal_strlit("script.js");
    lemma_table_routes_distinct(names);
    lemma_table_routes_segments(names);
    let f = fixed_routes();
    let t = table_routes(names);
    let l = route_table(names);
    assert(has_char("style.css"@, '.')) by {
        assert("style.css"@[5] == '.');
    }
    assert(has_char("script.js"@, '.')) by {
        assert("script.js"@[6] == '.');
    }
    assert forall|i: int, j: int| #![trigger l[i], l[j]]
        0 <= i < j < l.len() implies l[i].0 != l[j].0 || l[i].1 != l[j].1 by {
        if j < 3 {
            if l[i].0 == l[j].0 {
                let a = if i == 0 { Seq::<char>::empty() } else if i == 1 { "style.css"@ } else { "script.js"@ };
                let b = if j == 0 { Seq::<char>::empty() } else if j == 1 { "style.css"@ } else { "script.js"@ };
                lemma_admin_path_injective(a, b);
                assert(a[1] != b[1]);
            }
        } else if i >= 3 {
            assert(l[i] == t[i - 3] && l[j] == t[j - 3]);
        } else {
            assert(l[j] == t[j - 3]);
            let seg = choose|seg: Seq<char>| #[trigger] t[j - 3].0 == admin_path(seg) && is_table_segment(names, seg);
            lemma_segment_shape(names, seg);
            let a = if i == 0 { Seq::<char>::empty() } else if i == 1 { "style.css"@ } else { "script.js"@ };
            assert(l[i].0 == admin_path(a));
            if l[i].0 == l[j].0 {
                lemma_admin_path_injective(a, seg);
            }
        }
    }
}

} // verus!
