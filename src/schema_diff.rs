//! The schema differ: which tables and columns two schemas share, and how
//! the shared ones differ.

use vstd::prelude::*;
use vstd::string::*;
use crate::model::{
    ColumnInfo, TableInfo, ColumnDiff, TableDiff, SchemaComparison, ColumnChange, TableChange,
    ComparisonView, copy_column,
};
use crate::text::texts;

verus! {

/// What `str::to_lowercase` makes of a string.
pub uninterp spec fn lower_of(s: Seq<char>) -> Seq<char>;

/// Relies on `str::to_lowercase`: its result depends on the characters alone.
#[verifier::external_body]
fn lowercase(s: &str) -> (r: String)
    ensures
        r@ == lower_of(s@),
{
    s.to_lowercase()
}

/// Declared types are compared without regard to case.
pub open spec fn same_type(a: Seq<char>, b: Seq<char>) -> bool {
    lower_of(a) == lower_of(b)
}

pub open spec fn has_column(cs: Seq<ColumnInfo>, n: Seq<char>) -> bool {
    exists|i: int| 0 <= i < cs.len() && (#[trigger] cs[i]).name@ == n
}

/// The column of `cs` named `n` (the only one, in a well-formed table).
pub open spec fn column_named(cs: Seq<ColumnInfo>, n: Seq<char>) -> ColumnInfo {
    cs[choose|i: int| 0 <= i < cs.len() && (#[trigger] cs[i]).name@ == n]
}

pub open spec fn unique_columns(cs: Seq<ColumnInfo>) -> bool {
    forall|i: int, j: int|
        0 <= i < cs.len() && 0 <= j < cs.len() && i != j ==> (#[trigger] cs[i]).name@ != (#[trigger] cs[j]).name@
}

pub open spec fn has_table(ts: Seq<TableInfo>, n: Seq<char>) -> bool {
    exists|i: int| 0 <= i < ts.len() && (#[trigger] ts[i]).name@ == n
}

/// The table of `ts` named `n` (the only one, in a well-formed schema).
pub open spec fn table_named(ts: Seq<TableInfo>, n: Seq<char>) -> TableInfo {
    ts[choose|i: int| 0 <= i < ts.len() && (#[trigger] ts[i]).name@ == n]
}

pub open spec fn unique_tables(ts: Seq<TableInfo>) -> bool {
    forall|i: int, j: int|
        0 <= i < ts.len() && 0 <= j < ts.len() && i != j ==> (#[trigger] ts[i]).name@ != (#[trigger] ts[j]).name@
}

/// A well-formed schema snapshot: table names are unique, and so are the
/// column names within each table.
pub open spec fn well_formed(ts: Seq<TableInfo>) -> bool {
    unique_tables(ts) && forall|i: int| 0 <= i < ts.len() ==> unique_columns(#[trigger] ts[i].columns@)
}

/// Two columns at the same position agree in name, type, nullability and
/// primary-key flag.
pub open spec fn columns_match(a: ColumnInfo, b: ColumnInfo) -> bool {
    a.name@ == b.name@ && same_type(a.data_type@, b.data_type@) && a.is_nullable == b.is_nullable
        && a.is_primary_key == b.is_primary_key
}

/// Two tables are identical when their columns pair up, in declaration
/// order, as `columns_match` says.
pub open spec fn tables_identical(a: TableInfo, b: TableInfo) -> bool {
    a.columns@.len() == b.columns@.len() && forall|i: int|
        0 <= i < a.columns@.len() ==> columns_match(#[trigger] a.columns@[i], b.columns@[i])
}

pub open spec fn default_text(o: Option<String>) -> Option<Seq<char>> {
    match o {
        Some(s) => Some(s@),
        None => None,
    }
}

pub open spec fn bool_text(b: bool) -> Seq<char> {
    if b {
        "true"@
    } else {
        "false"@
    }
}

/// The descriptions of how column `a` became column `b`: type, nullability,
/// primary-key flag and default, in that order, each only where it differs.
pub open spec fn changes_of(a: ColumnInfo, b: ColumnInfo) -> Seq<Seq<char>> {
    let t: Seq<Seq<char>> = if !same_type(a.data_type@, b.data_type@) {
        seq!["type: "@ + a.data_type@ + " -> "@ + b.data_type@]
    } else {
        Seq::empty()
    };
    let n = if a.is_nullable != b.is_nullable {
        t.push("nullability: "@ + bool_text(a.is_nullable) + " -> "@ + bool_text(b.is_nullable))
    } else {
        t
    };
    let p = if a.is_primary_key != b.is_primary_key {
        n.push(
            "primary key: "@ + bool_text(a.is_primary_key) + " -> "@ + bool_text(b.is_primary_key),
        )
    } else {
        n
    };
    if default_text(a.default_value) != default_text(b.default_value) {
        p.push("default changed"@)
    } else {
        p
    }
}

/// The columns of `c2` whose names `c1` lacks, in `c2`'s order.
pub open spec fn added_columns(c1: Seq<ColumnInfo>, c2: Seq<ColumnInfo>) -> Seq<ColumnInfo>
    decreases c2.len(),
{
    if c2.len() == 0 {
        Seq::empty()
    } else {
        let p = added_columns(c1, c2.drop_last());
        if !has_column(c1, c2.last().name@) {
            p.push(c2.last())
        } else {
            p
        }
    }
}

/// The names of the columns of `c1` that `c2` lacks, in `c1`'s order.
pub open spec fn removed_columns(c1: Seq<ColumnInfo>, c2: Seq<ColumnInfo>) -> Seq<Seq<char>>
    decreases c1.len(),
{
    if c1.len() == 0 {
        Seq::empty()
    } else {
        let p = removed_columns(c1.drop_last(), c2);
        if !has_column(c2, c1.last().name@) {
            p.push(c1.last().name@)
        } else {
            p
        }
    }
}

pub open spec fn column_change(a: ColumnInfo, b: ColumnInfo) -> ColumnChange {
    ColumnChange {
        column: a.name@,
        old_type: a.data_type@,
        new_type: b.data_type@,
        changes: changes_of(a, b),
    }
}

/// The columns of `c1` that `c2` also has and that differ there, in `c1`'s order.
pub open spec fn modified_columns(c1: Seq<ColumnInfo>, c2: Seq<ColumnInfo>) -> Seq<ColumnChange>
    decreases c1.len(),
{
    if c1.len() == 0 {
        Seq::empty()
    } else {
        let p = modified_columns(c1.drop_last(), c2);
        let a = c1.last();
        if has_column(c2, a.name@) && changes_of(a, column_named(c2, a.name@)).len() > 0 {
            p.push(column_change(a, column_named(c2, a.name@)))
        } else {
            p
        }
    }
}

/// How table `a` of the first schema differs from table `b` of the second.
pub open spec fn table_change(a: TableInfo, b: TableInfo) -> TableChange {
    TableChange {
        table: a.name@,
        added: added_columns(a.columns@, b.columns@),
        removed: removed_columns(a.columns@, b.columns@),
        modified: modified_columns(a.columns@, b.columns@),
    }
}

/// The names of the tables of `a` that `b` lacks, in `a`'s order.
pub open spec fn tables_only_in(a: Seq<TableInfo>, b: Seq<TableInfo>) -> Seq<Seq<char>>
    decreases a.len(),
{
    if a.len() == 0 {
        Seq::empty()
    } else {
        let p = tables_only_in(a.drop_last(), b);
        if !has_table(b, a.last().name@) {
            p.push(a.last().name@)
        } else {
            p
        }
    }
}

/// The names of the tables of `a` that `b` holds identically, in `a`'s order.
pub open spec fn identical_tables(a: Seq<TableInfo>, b: Seq<TableInfo>) -> Seq<Seq<char>>
    decreases a.len(),
{
    if a.len() == 0 {
        Seq::empty()
    } else {
        let p = identical_tables(a.drop_last(), b);
        let t = a.last();
        if has_table(b, t.name@) && tables_identical(t, table_named(b, t.name@)) {
            p.push(t.name@)
        } else {
            p
        }
    }
}

/// The differences of the tables of `a` that `b` holds otherwise, in `a`'s order.
pub open spec fn modified_tables(a: Seq<TableInfo>, b: Seq<TableInfo>) -> Seq<TableChange>
    decreases a.len(),
{
    if a.len() == 0 {
        Seq::empty()
    } else {
        let p = modified_tables(a.drop_last(), b);
        let t = a.last();
        if has_table(b, t.name@) && !tables_identical(t, table_named(b, t.name@)) {
            p.push(table_change(t, table_named(b, t.name@)))
        } else {
            p
        }
    }
}

/// The comparison of schema `a` (of database `db1`) with schema `b` (of `db2`).
pub open spec fn comparison_of(db1: Seq<char>, db2: Seq<char>, a: Seq<TableInfo>, b: Seq<TableInfo>) -> ComparisonView {
    ComparisonView {
        database1: db1,
        database2: db2,
        added: tables_only_in(b, a),
        removed: tables_only_in(a, b),
        modified: modified_tables(a, b),
        identical: identical_tables(a, b),
    }
}

pub(crate) proof fn lemma_column_named(cs: Seq<ColumnInfo>, i: int)
    requires
        unique_columns(cs),
        0 <= i < cs.len(),
    ensures
        column_named(cs, cs[i].name@) == cs[i],
{
    let n = cs[i].name@;
    assert(0 <= i < cs.len() && cs[i].name@ == n);
    let j = choose|j: int| 0 <= j < cs.len() && (#[trigger] cs[j]).name@ == n;
    assert(j == i);
}

pub(crate) proof fn lemma_table_named(ts: Seq<TableInfo>, i: int)
    requires
        unique_tables(ts),
        0 <= i < ts.len(),
    ensures
        table_named(ts, ts[i].name@) == ts[i],
{
    let n = ts[i].name@;
    assert(0 <= i < ts.len() && ts[i].name@ == n);
    let j = choose|j: int| 0 <= j < ts.len() && (#[trigger] ts[j]).name@ == n;
    assert(j == i);
}

pub(crate) fn find_column(cs: &Vec<ColumnInfo>, name: &String) -> (r: Option<usize>)
    ensures
        match r {
            Some(i) => i < cs@.len() && cs@[i as int].name@ == name@,
            None => !has_column(cs@, name@),
        },
{
    let mut i: usize = 0;
    while i < cs.len()
        invariant
            i <= cs@.len(),
            forall|k: int| 0 <= k < i ==> (#[trigger] cs@[k]).name@ != name@,
        decreases cs@.len() - i,
    {
        if cs[i].name == *name {
            return Some(i);
        }
        i = i + 1;
    }
    None
}

pub(crate) fn find_table(ts: &Vec<TableInfo>, name: &String) -> (r: Option<usize>)
    ensures
        match r {
            Some(i) => i < ts@.len() && ts@[i as int].name@ == name@,
            None => !has_table(ts@, name@),
        },
{
    let mut i: usize = 0;
    while i < ts.len()
        invariant
            i <= ts@.len(),
            forall|k: int| 0 <= k < i ==> (#[trigger] ts@[k]).name@ != name@,
        decreases ts@.len() - i,
    {
        if ts[i].name == *name {
            return Some(i);
        }
        i = i + 1;
    }
    None
}

fn bool_string(b: bool) -> (r: String)
    ensures
        r@ == bool_text(b),
{
    if b {
        String::from_str("true")
    } else {
        String::from_str("false")
    }
}

fn transition(label: &str, a: &str, b: &str) -> (r: String)
    ensures
        r@ == label@ + a@ + " -> "@ + b@,
{
    let mut s = String::from_str(label);
    s.append(a);
    s.append(" -> ");
    s.append(b);
    s
}

/// The descriptions of how column `a` became column `b` (see `changes_of`).
pub fn column_changes(a: &ColumnInfo, b: &ColumnInfo) -> (r: Vec<String>)
    ensures
        texts(r@) == changes_of(*a, *b),
{
    let mut r: Vec<String> = Vec::new();
    if lowercase(a.data_type.as_str()) != lowercase(b.data_type.as_str()) {
        r.push(transition("type: ", a.data_type.as_str(), b.data_type.as_str()));
    }
    assert(texts(r@) =~= (if !same_type(a.data_type@, b.data_type@) {
        seq!["type: "@ + a.data_type@ + " -> "@ + b.data_type@]
    } else {
        Seq::<Seq<char>>::empty()
    }));
    let ghost t = texts(r@);
    if a.is_nullable != b.is_nullable {
        let x = bool_string(a.is_nullable);
        let y = bool_string(b.is_nullable);
        r.push(transition("nullability: ", x.as_str(), y.as_str()));
        assert(texts(r@) =~= t.push(
            "nullability: "@ + bool_text(a.is_nullable) + " -> "@ + bool_text(b.is_nullable),
        ));
    }
    let ghost n = texts(r@);
    if a.is_primary_key != b.is_primary_key {
        let x = bool_string(a.is_primary_key);
        let y = bool_string(b.is_primary_key);
        r.push(transition("primary key: ", x.as_str(), y.as_str()));
        assert(texts(r@) =~= n.push(
            "primary key: "@ + bool_text(a.is_primary_key) + " -> "@ + bool_text(b.is_primary_key),
        ));
    }
    let ghost p = texts(r@);
    let same_default = match (&a.default_value, &b.default_value) {
        (Some(x), Some(y)) => *x == *y,
        (None, None) => true,
        _ => false,
    };
    if !same_default {
        r.push(String::from_str("default changed"));
        assert(texts(r@) =~= p.push("default changed"@));
    }
    r
}

/// Tells whether two tables are identical (see `tables_identical`).
pub fn tables_are_identical(a: &TableInfo, b: &TableInfo) -> (r: bool)
    ensures
        r == tables_identical(*a, *b),
{
    if a.columns.len() != b.columns.len() {
        return false;
    }
    let mut i: usize = 0;
    while i < a.columns.len()
        invariant
            i <= a.columns@.len() == b.columns@.len(),
            forall|k: int| 0 <= k < i ==> columns_match(#[trigger] a.columns@[k], b.columns@[k]),
        decreases a.columns@.len() - i,
    {
        let c1 = &a.columns[i];
        let c2 = &b.columns[i];
        if c1.name != c2.name || lowercase(c1.data_type.as_str()) != lowercase(
            c2.data_type.as_str(),
        ) || c1.is_nullable != c2.is_nullable || c1.is_primary_key != c2.is_primary_key {
            assert(!columns_match(a.columns@[i as int], b.columns@[i as int]));
            return false;
        }
        i = i + 1;
    }
    true
}

/// How table `a` of the first schema differs from table `b` of the second.
pub fn compare_tables(a: &TableInfo, b: &TableInfo) -> (r: TableDiff)
    requires
        unique_columns(b.columns@),
    ensures
        r@ == table_change(*a, *b),
{
    let c1 = &a.columns;
    let c2 = &b.columns;
    let mut removed: Vec<String> = Vec::new();
    let mut modified: Vec<ColumnDiff> = Vec::new();
    let mut i: usize = 0;
    assert(c1@.subrange(0, 0) =~= Seq::<ColumnInfo>::empty());
    while i < c1.len()
        invariant
            i <= c1@.len(),
            unique_columns(c2@),
            texts(removed@) == removed_columns(c1@.subrange(0, i as int), c2@),
            modified@.map_values(|d: ColumnDiff| d@) == modified_columns(c1@.subrange(0, i as int), c2@),
        decreases c1@.len() - i,
    {
        let ghost pre = c1@.subrange(0, i as int);
        let ghost cur = c1@.subrange(0, i + 1);
        assert(cur.drop_last() =~= pre);
        assert(cur.last() == c1@[i as int]);
        let col = &c1[i];
        match find_column(c2, &col.name) {
            Some(j) => {
                proof {
                    lemma_column_named(c2@, j as int);
                }
                let changes = column_changes(col, &c2[j]);
                if changes.len() > 0 {
                    let d = ColumnDiff {
                        column_name: col.name.clone(),
                        old_type: col.data_type.clone(),
                        new_type: c2[j].data_type.clone(),
                        changes,
                    };
                    let ghost before = modified@;
                    modified.push(d);
                    assert(modified@.map_values(|d: ColumnDiff| d@) =~= before.map_values(
                        |d: ColumnDiff| d@,
                    ).push(column_change(*col, c2@[j as int])));
                }
            },
            None => {
                let ghost before = removed@;
                removed.push(col.name.clone());
                assert(texts(removed@) =~= texts(before).push(col.name@));
            },
        }
        i = i + 1;
    }
    assert(c1@.subrange(0, i as int) =~= c1@);
    let mut added: Vec<ColumnInfo> = Vec::new();
    let mut k: usize = 0;
    assert(c2@.subrange(0, 0) =~= Seq::<ColumnInfo>::empty());
    while k < c2.len()
        invariant
            k <= c2@.len(),
            added@ == added_columns(c1@, c2@.subrange(0, k as int)),
        decreases c2@.len() - k,
    {
        assert(c2@.subrange(0, k + 1).drop_last() =~= c2@.subrange(0, k as int));
        assert(c2@.subrange(0, k + 1).last() == c2@[k as int]);
        match find_column(c1, &c2[k].name) {
            Some(_) => {},
            None => {
                added.push(copy_column(&c2[k]));
            },
        }
        k = k + 1;
    }
    assert(c2@.subrange(0, k as int) =~= c2@);
    TableDiff {
        table_name: a.name.clone(),
        added_columns: added,
        removed_columns: removed,
        modified_columns: modified,
    }
}

/// Compares the schema `t1` of database `db1` with the schema `t2` of `db2`:
/// tables only in `t2` are added, tables only in `t1` removed, and each
/// shared table is identical or modified.
pub fn compare_schemas(db1: &str, db2: &str, t1: &Vec<TableInfo>, t2: &Vec<TableInfo>) -> (r: SchemaComparison)
    requires
        well_formed(t1@),
        well_formed(t2@),
    ensures
        r@ == comparison_of(db1@, db2@, t1@, t2@),
{
    let mut removed: Vec<String> = Vec::new();
    let mut identical: Vec<String> = Vec::new();
    let mut modified: Vec<TableDiff> = Vec::new();
    let mut i: usize = 0;
    assert(t1@.subrange(0, 0) =~= Seq::<TableInfo>::empty());
    while i < t1.len()
        invariant
            i <= t1@.len(),
            well_formed(t2@),
            texts(removed@) == tables_only_in(t1@.subrange(0, i as int), t2@),
            texts(identical@) == identical_tables(t1@.subrange(0, i as int), t2@),
            modified@.map_values(|d: TableDiff| d@) == modified_tables(t1@.subrange(0, i as int), t2@),
        decreases t1@.len() - i,
    {
        let ghost pre = t1@.subrange(0, i as int);
        let ghost cur = t1@.subrange(0, i + 1);
        assert(cur.drop_last() =~= pre);
        assert(cur.last() == t1@[i as int]);
        let t = &t1[i];
        match find_table(t2, &t.name) {
            Some(j) => {
                proof {
                    lemma_table_named(t2@, j as int);
                }
                if tables_are_identical(t, &t2[j]) {
                    let ghost before = identical@;
                    identical.push(t.name.clone());
                    assert(texts(identical@) =~= texts(before).push(t.name@));
                } else {
                    assert(unique_columns(t2@[j as int].columns@));
                    let d = compare_tables(t, &t2[j]);
                    let ghost before = modified@;
                    modified.push(d);
                    assert(modified@.map_values(|d: TableDiff| d@) =~= before.map_values(
                        |d: TableDiff| d@,
                    ).push(table_change(*t, t2@[j as int])));
                }
            },
            None => {
                let ghost before = removed@;
                removed.push(t.name.clone());
                assert(texts(removed@) =~= texts(before).push(t.name@));
            },
        }
        i = i + 1;
    }
    assert(t1@.subrange(0, i as int) =~= t1@);
    let mut added: Vec<String> = Vec::new();
    let mut k: usize = 0;
    assert(t2@.subrange(0, 0) =~= Seq::<TableInfo>::empty());
    while k < t2.len()
        invariant
            k <= t2@.len(),
            texts(added@) == tables_only_in(t2@.subrange(0, k as int), t1@),
        decreases t2@.len() - k,
    {
        assert(t2@.subrange(0, k + 1).drop_last() =~= t2@.subrange(0, k as int));
        assert(t2@.subrange(0, k + 1).last() == t2@[k as int]);
        match find_table(t1, &t2[k].name) {
            Some(_) => {},
            None => {
                let ghost before = added@;
                added.push(t2[k].name.clone());
                assert(texts(added@) =~= texts(before).push(t2@[k as int].name@));
            },
        }
        k = k + 1;
    }
    assert(t2@.subrange(0, k as int) =~= t2@);
    SchemaComparison {
        database1: String::from_str(db1),
        database2: String::from_str(db2),
        added_tables: added,
        removed_tables: removed,
        modified_tables: modified,
        identical_tables: identical,
    }
}

} // verus!
