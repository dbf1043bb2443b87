//! The reverse foreign-key index: for a table, the columns of other tables
//! (or of itself) that reference it.
use vstd::prelude::*;
use crate::schema::{Column, TableSchema};
use crate::text::text_eq;

verus! {

/// A column `source_column` of table `source_table` that references the table
/// the link was computed for.
#[derive(Clone, Debug)]
pub struct ReverseLink {
    pub source_table: String,
    pub source_column: String,
}

impl ReverseLink {
    pub open spec fn pair(self) -> (Seq<char>, Seq<char>) {
        (self.source_table@, self.source_column@)
    }
}

/// Column `c` references table `target`.
pub open spec fn references(c: Column, target: Seq<char>) -> bool {
    c.foreign_key matches Some(t) && t@ == target
}

/// The links into `target` from the columns `cols` of table `table`, in order.
pub open spec fn column_links(table: Seq<char>, cols: Seq<Column>, target: Seq<char>) -> Seq<(Seq<char>, Seq<char>)>
    decreases cols.len(),
{
    if cols.len() == 0 {
        Seq::empty()
    } else {
        let rest = column_links(table, cols.drop_last(), target);
        if references(cols.last(), target) {
            rest.push((table, cols.last().name@))
        } else {
            rest
        }
    }
}

/// The links into `target` from all tables, in table-then-column order.
pub open spec fn links_into(tables: Seq<TableSchema>, target: Seq<char>) -> Seq<(Seq<char>, Seq<char>)>
    decreases tables.len(),
{
    if tables.len() == 0 {
        Seq::empty()
    } else {
        links_into(tables.drop_last(), target) + column_links(tables.last().name@, tables.last().columns@, target)
    }
}

/// Column `c` of table `s` in `tables` is a foreign key into `target`.
pub open spec fn is_edge(tables: Seq<TableSchema>, s: int, c: int, target: Seq<char>) -> bool {
    &&& 0 <= s < tables.len()
    &&& 0 <= c < tables[s].columns@.len()
    &&& references(tables[s].columns@[c], target)
}

/// The (source table, source column) pairs of a sequence of links.
pub open spec fn link_pairs(links: Seq<ReverseLink>) -> Seq<(Seq<char>, Seq<char>)> {
    links.map_values(|l: ReverseLink| l.pair())
}

/// `pair` is the link from column `c` of `cols`, a foreign key into `target`.
pub open spec fn link_from(table: Seq<char>, cols: Seq<Column>, c: int, target: Seq<char>, pair: (Seq<char>, Seq<char>)) -> bool {
    0 <= c < cols.len() && references(cols[c], target) && pair == (table, cols[c].name@)
}

/// `pair` is the link from column `c` of table `s`, a foreign key into `target`.
pub open spec fn edge_link(tables: Seq<TableSchema>, s: int, c: int, target: Seq<char>, pair: (Seq<char>, Seq<char>)) -> bool {
    is_edge(tables, s, c, target) && pair == (tables[s].name@, tables[s].columns@[c].name@)
}

/// `pair` is the link from some column of `cols`, a foreign key into `target`.
pub open spec fn from_some_column(table: Seq<char>, cols: Seq<Column>, target: Seq<char>, pair: (Seq<char>, Seq<char>)) -> bool {
    exists|c: int| #[trigger] link_from(table, cols, c, target, pair)
}

/// `pair` is the link from some column of some table, a foreign key into `target`.
pub open spec fn from_some_edge(tables: Seq<TableSchema>, target: Seq<char>, pair: (Seq<char>, Seq<char>)) -> bool {
    exists|s: int, c: int| #[trigger] edge_link(tables, s, c, target, pair)
}

/// Whether a column references `target`.
fn column_references(c: &Column, target: &str) -> (r: bool)
    ensures
        r == references(*c, target@),
{
    match &c.foreign_key {
        Some(t) => text_eq(t.as_str(), target),
        None => false,
    }
}

/// The reverse links into table `target`: every column of every table whose
/// foreign key targets it, in table-then-column declaration order.
pub fn reverse_links(tables: &Vec<TableSchema>, target: &str) -> (r: Vec<ReverseLink>)
    ensures
        link_pairs(r@) == links_into(tables@, target@),
{
    let mut r: Vec<ReverseLink> = Vec::new();
    let mut i: usize = 0;
    while i < tables.len()
        invariant
            i <= tables@.len(),
            link_pairs(r@) == links_into(tables@.take(i as int), target@),
        decreases tables@.len() - i,
    {
        let t = &tables[i];
        let ghost before = link_pairs(r@);
        let mut j: usize = 0;
        while j < t.columns.len()
            invariant
                j <= t.columns@.len(),
                link_pairs(r@) == before + column_links(
                    t.name@,
                    t.columns@.take(j as int),
                    target@,
                ),
            decreases t.columns@.len() - j,
        {
            let c = &t.columns[j];
            assert(t.columns@.take(j + 1).drop_last() == t.columns@.take(j as int));
            assert(t.columns@.take(j + 1).last() == t.columns@[j as int]);
            let ghost prev = r@;
            if column_references(c, target) {
                let link = ReverseLink { source_table: t.name.clone(), source_column: c.name.clone() };
                r.push(link);
                assert(link_pairs(r@) =~= link_pairs(prev).push((t.name@, c.name@)));
            } else {
                assert(r@ == prev);
            }
            assert(link_pairs(prev) == before + column_links(
                t.name@,
                t.columns@.take(j as int),
                target@,
            ));
            assert(link_pairs(r@) =~= before + column_links(
                t.name@,
                t.columns@.take(j + 1),
                target@,
            ));
            j = j + 1;
        }
        assert(t.columns@.take(j as int) == t.columns@);
        assert(tables@.take(i + 1).drop_last() == tables@.take(i as int));
        i = i + 1;
    }
    assert(tables@.take(i as int) == tables@);
    r
}

proof fn lemma_column_links_exact(table: Seq<char>, cols: Seq<Column>, target: Seq<char>)
    ensures
        forall|c: int| 0 <= c < cols.len() && references(#[trigger] cols[c], target)
            ==> column_links(table, cols, target).contains((table, cols[c].name@)),
        forall|k: int| 0 <= k < column_links(table, cols, target).len()
            ==> from_some_column(table, cols, target, #[trigger] column_links(table, cols, target)[k]),
    decreases cols.len(),
{
    if cols.len() > 0 {
        let rest = cols.drop_last();
        lemma_column_links_exact(table, rest, target);
        let l = column_links(table, cols, target);
        let lr = column_links(table, rest, target);
        assert forall|c: int| 0 <= c < cols.len() && references(#[trigger] cols[c], target)
            implies l.contains((table, cols[c].name@)) by {
            if c < cols.len() - 1 {
                assert(rest[c] == cols[c]);
                let k = choose|k: int| 0 <= k < lr.len() && lr[k] == (table, rest[c].name@);
                assert(l[k] == lr[k]);
            } else {
                assert(l[l.len() - 1] == (table, cols[c].name@));
            }
        }
        assert forall|k: int| 0 <= k < l.len() implies from_some_column(table, cols, target, #[trigger] l[k]) by {
            if k < lr.len() {
                assert(l[k] == lr[k]);
                assert(from_some_column(table, rest, target, lr[k]));
                let c = choose|c: int| #[trigger] link_from(table, rest, c, target, lr[k]);
                assert(rest[c] == cols[c]);
                assert(link_from(table, cols, c, target, l[k]));
            } else {
                assert(l[k] == (table, cols[cols.len() - 1].name@));
                assert(link_from(table, cols, cols.len() - 1, target, l[k]));
            }
        }
    } else {
        assert(column_links(table, cols, target).len() == 0);
    }
}

/// The reverse links into a table are exactly the foreign-key edges into it:
/// every column of table `S` with a foreign key to `T` gives the link
/// `(S, column)` among the links into `T`, and every link into `T` comes from
/// such a column.
pub proof fn lemma_reverse_links_exact(tables: Seq<TableSchema>, target: Seq<char>)
    ensures
        forall|s: int, c: int| is_edge(tables, s, c, target)
            ==> links_into(tables, target).contains((tables[s].name@, tables[s].columns@[c].name@)),
        forall|k: int| 0 <= k < links_into(tables, target).len()
            ==> from_some_edge(tables, target, #[trigger] links_into(tables, target)[k]),
    decreases tables.len(),
{
    if tables.len() > 0 {
        let rest = tables.drop_last();
        let last = tables.last();
        lemma_reverse_links_exact(rest, target);
        lemma_column_links_exact(last.name@, last.columns@, target);
        let l = links_into(tables, target);
        let lr = links_into(rest, target);
        let lc = column_links(last.name@, last.columns@, target);
        assert forall|s: int, c: int| is_edge(tables, s, c, target)
            implies l.contains((tables[s].name@, tables[s].columns@[c].name@)) by {
            if s < tables.len() - 1 {
                assert(rest[s] == tables[s]);
                assert(is_edge(rest, s, c, target));
                let k = choose|k: int| 0 <= k < lr.len() && lr[k] == (rest[s].name@, rest[s].columns@[c].name@);
                assert(l[k] == lr[k]);
            } else {
                assert(references(last.columns@[c], target));
                let k = choose|k: int| 0 <= k < lc.len() && lc[k] == (last.name@, last.columns@[c].name@);
                assert(l[lr.len() + k] == lc[k]);
            }
        }
        assert forall|k: int| 0 <= k < l.len() implies from_some_edge(tables, target, #[trigger] l[k]) by {
            if k < lr.len() {
                assert(l[k] == lr[k]);
                assert(from_some_edge(rest, target, lr[k]));
                let (s, c) = choose|s: int, c: int| #[trigger] edge_link(rest, s, c, target, lr[k]);
                assert(rest[s] == tables[s]);
                assert(edge_link(tables, s, c, target, l[k]));
            } else {
                let kk = k - lr.len();
                assert(l[k] == lc[kk]);
                assert(from_some_column(last.name@, last.columns@, target, lc[kk]));
                let c = choose|c: int| #[trigger] link_from(last.name@, last.columns@, c, target, lc[kk]);
                assert(edge_link(tables, tables.len() - 1, c, target, l[k]));
            }
        }
    } else {
        assert(links_into(tables, target).len() == 0);
    }
}

} // verus!
