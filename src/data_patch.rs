//! The data patch generator: DML from a row-level diff supplied by a
//! comparison component, in either direction, filtered by patch type.

use vstd::prelude::*;
use vstd::string::*;
use crate::literal::{SqlValue, literal_of, sql_literal};
use crate::schema_patch::PatchDirection;
use crate::sql_text::{joined, join_with, push_line, extend_lines, lines_text, join_lines};
use crate::clock::utc_now_text;
use crate::text::{texts, decimal, decimal_text};

verus! {

/// One named value of a row.
#[derive(Clone, Debug)]
pub struct Field {
    pub name: String,
    pub value: SqlValue,
}

/// A row as named values.
#[derive(Clone, Debug)]
pub struct Row {
    pub fields: Vec<Field>,
}

/// A row present on both sides with the same key and differing columns.
#[derive(Clone, Debug)]
pub struct RowPair {
    pub source_row: Row,
    pub target_row: Row,
    pub different_columns: Vec<String>,
}

/// The row-level diff of one table.
#[derive(Clone, Debug)]
pub struct TableRowDiff {
    pub table_name: String,
    pub key_column: String,
    pub missing_in_target: Vec<Row>,
    pub extra_in_target: Vec<Row>,
    pub different_rows: Vec<RowPair>,
    pub common_columns: Vec<String>,
}

/// Which buckets of the diff a data patch covers.
#[derive(Clone, Copy, Debug, PartialEq, Eq, Structural)]
pub enum PatchType {
    All,
    MissingOnly,
    ExtraOnly,
    DifferentOnly,
}

impl PatchType {
    /// Reads `"all"`, `"missing"`, `"extra"` or `"different"`.
    pub fn parse(s: &str) -> (r: Option<PatchType>)
        ensures
            r == (if s@ == "all"@ {
                Some(PatchType::All)
            } else if s@ == "missing"@ {
                Some(PatchType::MissingOnly)
            } else if s@ == "extra"@ {
                Some(PatchType::ExtraOnly)
            } else if s@ == "different"@ {
                Some(PatchType::DifferentOnly)
            } else {
                None
            }),
    {
        let t = String::from_str(s);
        if t == String::from_str("all") {
            Some(PatchType::All)
        } else if t == String::from_str("missing") {
            Some(PatchType::MissingOnly)
        } else if t == String::from_str("extra") {
            Some(PatchType::ExtraOnly)
        } else if t == String::from_str("different") {
            Some(PatchType::DifferentOnly)
        } else {
            None
        }
    }
}

/// Why no data patch could be made.
#[derive(Clone, Debug)]
pub enum DataPatchError {
    /// A row of the named table that a statement needs lacks a value for the
    /// named key column.
    MissingKeyValue(String, String),
}

pub open spec fn covers_missing(ty: PatchType) -> bool {
    ty == PatchType::All || ty == PatchType::MissingOnly
}

pub open spec fn covers_extra(ty: PatchType) -> bool {
    ty == PatchType::All || ty == PatchType::ExtraOnly
}

pub open spec fn covers_different(ty: PatchType) -> bool {
    ty == PatchType::All || ty == PatchType::DifferentOnly
}

/// The value of the first field named `c`.
pub open spec fn lookup(fs: Seq<Field>, c: Seq<char>) -> Option<SqlValue>
    decreases fs.len(),
{
    if fs.len() == 0 {
        None
    } else if fs[0].name@ == c {
        Some(fs[0].value)
    } else {
        lookup(fs.drop_first(), c)
    }
}

/// The literal of a looked-up value; an absent one is `NULL`.
pub open spec fn value_text(o: Option<SqlValue>) -> Seq<char> {
    match o {
        Some(v) => literal_of(v),
        None => "NULL"@,
    }
}

pub open spec fn insert_line(t: Seq<char>, cols: Seq<Seq<char>>, row: Row) -> Seq<char> {
    "INSERT INTO "@ + t + " ("@ + joined(cols, ", "@) + ") VALUES ("@ + joined(
        cols.map_values(|c: Seq<char>| value_text(lookup(row.fields@, c))),
        ", "@,
    ) + ");"@
}

pub open spec fn delete_line(t: Seq<char>, key: Seq<char>, row: Row) -> Seq<char> {
    "DELETE FROM "@ + t + " WHERE "@ + key + " = "@ + value_text(lookup(row.fields@, key)) + ";"@
}

/// The row whose values an `UPDATE` takes: the template side's.
pub open spec fn template_row(p: RowPair, dir: PatchDirection) -> Row {
    if dir == PatchDirection::SourceToTarget {
        p.source_row
    } else {
        p.target_row
    }
}

pub open spec fn update_line(t: Seq<char>, key: Seq<char>, p: RowPair, dir: PatchDirection) -> Seq<char> {
    let row = template_row(p, dir);
    "UPDATE "@ + t + " SET "@ + joined(
        texts(p.different_columns@).map_values(
            |c: Seq<char>| c + " = "@ + value_text(lookup(row.fields@, c)),
        ),
        ", "@,
    ) + " WHERE "@ + key + " = "@ + value_text(lookup(row.fields@, key)) + ";"@
}

pub open spec fn insert_lines(t: Seq<char>, cols: Seq<Seq<char>>, rows: Seq<Row>) -> Seq<Seq<char>> {
    rows.map_values(|r: Row| insert_line(t, cols, r))
}

pub open spec fn delete_lines(t: Seq<char>, key: Seq<char>, rows: Seq<Row>) -> Seq<Seq<char>> {
    rows.map_values(|r: Row| delete_line(t, key, r))
}

/// One `UPDATE` per pair that names differing columns.
pub open spec fn update_lines(t: Seq<char>, key: Seq<char>, ps: Seq<RowPair>, dir: PatchDirection) -> Seq<Seq<char>>
    decreases ps.len(),
{
    if ps.len() == 0 {
        Seq::empty()
    } else {
        let p = update_lines(t, key, ps.drop_last(), dir);
        if ps.last().different_columns@.len() > 0 {
            p.push(update_line(t, key, ps.last(), dir))
        } else {
            p
        }
    }
}

pub open spec fn has_key(row: Row, key: Seq<char>) -> bool {
    lookup(row.fields@, key) is Some
}

pub open spec fn all_keyed(rows: Seq<Row>, key: Seq<char>) -> bool {
    forall|i: int| 0 <= i < rows.len() ==> has_key(#[trigger] rows[i], key)
}

pub open spec fn all_pairs_keyed(ps: Seq<RowPair>, key: Seq<char>, dir: PatchDirection) -> bool {
    forall|i: int| 0 <= i < ps.len() ==> has_key(template_row(#[trigger] ps[i], dir), key)
}

/// Every row that a `DELETE` or `UPDATE` of this table's patch is keyed by
/// has a value for the key column.
pub open spec fn keys_present(d: TableRowDiff, dir: PatchDirection, ty: PatchType) -> bool {
    let fwd = dir == PatchDirection::SourceToTarget;
    let k = d.key_column@;
    d.common_columns@.len() == 0 || ((!covers_missing(ty) || fwd || all_keyed(d.missing_in_target@, k))
        && (!covers_extra(ty) || !fwd || all_keyed(d.extra_in_target@, k)) && (!covers_different(ty)
        || all_pairs_keyed(d.different_rows@, k, dir)))
}

/// The lines for the rows missing in the target: inserted there under the
/// forward direction, deleted from the source under the reverse one.
pub open spec fn missing_part(d: TableRowDiff, dir: PatchDirection, ty: PatchType) -> Seq<Seq<char>> {
    let t = d.table_name@;
    let miss = d.missing_in_target@;
    if covers_missing(ty) && miss.len() > 0 {
        (if dir == PatchDirection::SourceToTarget {
            seq!["-- INSERT "@ + decimal(miss.len()) + " missing rows into "@ + t] + insert_lines(
                t,
                texts(d.common_columns@),
                miss,
            )
        } else {
            seq![
                "-- DELETE "@ + decimal(miss.len()) + " extra rows from "@ + t
                    + " (exist in source only)"@,
            ] + delete_lines(t, d.key_column@, miss)
        }) + seq![Seq::empty()]
    } else {
        Seq::empty()
    }
}

/// The lines for the rows extra in the target: deleted there under the
/// forward direction, inserted into the source under the reverse one.
pub open spec fn extra_part(d: TableRowDiff, dir: PatchDirection, ty: PatchType) -> Seq<Seq<char>> {
    let t = d.table_name@;
    let extra = d.extra_in_target@;
    if covers_extra(ty) && extra.len() > 0 {
        (if dir == PatchDirection::SourceToTarget {
            seq!["-- DELETE "@ + decimal(extra.len()) + " extra rows from "@ + t] + delete_lines(
                t,
                d.key_column@,
                extra,
            )
        } else {
            seq![
                "-- INSERT "@ + decimal(extra.len()) + " missing rows into "@ + t
                    + " (exist in target only)"@,
            ] + insert_lines(t, texts(d.common_columns@), extra)
        }) + seq![Seq::empty()]
    } else {
        Seq::empty()
    }
}

/// The lines for rows that differ: updated from the template side.
pub open spec fn different_part(d: TableRowDiff, dir: PatchDirection, ty: PatchType) -> Seq<Seq<char>> {
    let t = d.table_name@;
    let diff = d.different_rows@;
    if covers_different(ty) && diff.len() > 0 {
        seq!["-- UPDATE "@ + decimal(diff.len()) + " different rows in "@ + t] + update_lines(
            t,
            d.key_column@,
            diff,
            dir,
        ) + seq![Seq::empty()]
    } else {
        Seq::empty()
    }
}

/// The lines that reconcile one table; a table without common columns gets none.
pub open spec fn table_data_lines(d: TableRowDiff, dir: PatchDirection, ty: PatchType) -> Seq<Seq<char>> {
    if d.common_columns@.len() == 0 {
        Seq::empty()
    } else {
        missing_part(d, dir, ty) + extra_part(d, dir, ty) + different_part(d, dir, ty)
    }
}

fn find_value(row: &Row, col: &str) -> (r: Option<usize>)
    ensures
        match r {
            Some(i) => i < row.fields@.len() && lookup(row.fields@, col@) == Some(row.fields@[i as int].value),
            None => lookup(row.fields@, col@) is None,
        },
{
    let fs = &row.fields;
    let c = String::from_str(col);
    let mut i: usize = 0;
    assert(fs@.subrange(0, fs@.len() as int) =~= fs@);
    while i < fs.len()
        invariant
            i <= fs@.len(),
            fs@ == row.fields@,
            c@ == col@,
            lookup(fs@, col@) == lookup(fs@.subrange(i as int, fs@.len() as int), col@),
        decreases fs@.len() - i,
    {
        let ghost rest = fs@.subrange(i as int, fs@.len() as int);
        assert(rest[0] == fs@[i as int]);
        if fs[i].name == c {
            assert(lookup(rest, col@) == Some(fs@[i as int].value));
            return Some(i);
        }
        assert(rest.drop_first() =~= fs@.subrange(i + 1, fs@.len() as int));
        i = i + 1;
    }
    None
}

fn value_literal(row: &Row, col: &str) -> (r: String)
    ensures
        r@ == value_text(lookup(row.fields@, col@)),
{
    match find_value(row, col) {
        Some(i) => sql_literal(&row.fields[i].value),
        None => String::from_str("NULL"),
    }
}

fn concat(a: &str, b: &str) -> (r: String)
    ensures
        r@ == a@ + b@,
{
    let mut s = String::from_str(a);
    s.append(b);
    s
}

fn insert_statement(t: &str, cols: &Vec<String>, row: &Row) -> (r: String)
    ensures
        r@ == insert_line(t@, texts(cols@), *row),
{
    let mut vals: Vec<String> = Vec::new();
    let mut i: usize = 0;
    while i < cols.len()
        invariant
            i <= cols@.len(),
            texts(vals@) == texts(cols@).subrange(0, i as int).map_values(
                |c: Seq<char>| value_text(lookup(row.fields@, c)),
            ),
        decreases cols@.len() - i,
    {
        push_line(&mut vals, value_literal(row, cols[i].as_str()));
        i = i + 1;
        assert(texts(vals@) =~= texts(cols@).subrange(0, i as int).map_values(
            |c: Seq<char>| value_text(lookup(row.fields@, c)),
        ));
    }
    assert(texts(cols@).subrange(0, i as int) =~= texts(cols@));
    let mut s = concat("INSERT INTO ", t);
    s.append(" (");
    s.append(join_with(cols, ", ").as_str());
    s.append(") VALUES (");
    s.append(join_with(&vals, ", ").as_str());
    s.append(");");
    s
}

fn delete_statement(t: &str, key: &str, row: &Row) -> (r: String)
    ensures
        r@ == delete_line(t@, key@, *row),
{
    let mut s = concat("DELETE FROM ", t);
    s.append(" WHERE ");
    s.append(key);
    s.append(" = ");
    s.append(value_literal(row, key).as_str());
    s.append(";");
    s
}

fn update_statement(t: &str, key: &str, p: &RowPair, dir: PatchDirection) -> (r: String)
    ensures
        r@ == update_line(t@, key@, *p, dir),
{
    let row = if dir == PatchDirection::SourceToTarget {
        &p.source_row
    } else {
        &p.target_row
    };
    let cols = &p.different_columns;
    let mut sets: Vec<String> = Vec::new();
    let mut i: usize = 0;
    while i < cols.len()
        invariant
            i <= cols@.len(),
            *row == template_row(*p, dir),
            texts(sets@) == texts(cols@).subrange(0, i as int).map_values(
                |c: Seq<char>| c + " = "@ + value_text(lookup(row.fields@, c)),
            ),
        decreases cols@.len() - i,
    {
        let mut a = concat(cols[i].as_str(), " = ");
        a.append(value_literal(row, cols[i].as_str()).as_str());
        push_line(&mut sets, a);
        i = i + 1;
        assert(texts(sets@) =~= texts(cols@).subrange(0, i as int).map_values(
            |c: Seq<char>| c + " = "@ + value_text(lookup(row.fields@, c)),
        ));
    }
    assert(texts(cols@).subrange(0, i as int) =~= texts(cols@));
    let mut s = concat("UPDATE ", t);
    s.append(" SET ");
    s.append(join_with(&sets, ", ").as_str());
    s.append(" WHERE ");
    s.append(key);
    s.append(" = ");
    s.append(value_literal(row, key).as_str());
    s.append(";");
    s
}

fn insert_statements(t: &str, cols: &Vec<String>, rows: &Vec<Row>) -> (r: Vec<String>)
    ensures
        texts(r@) == insert_lines(t@, texts(cols@), rows@),
{
    let mut r: Vec<String> = Vec::new();
    let mut i: usize = 0;
    while i < rows.len()
        invariant
            i <= rows@.len(),
            texts(r@) == insert_lines(t@, texts(cols@), rows@.subrange(0, i as int)),
        decreases rows@.len() - i,
    {
        push_line(&mut r, insert_statement(t, cols, &rows[i]));
        i = i + 1;
        assert(texts(r@) =~= insert_lines(t@, texts(cols@), rows@.subrange(0, i as int)));
    }
    assert(rows@.subrange(0, i as int) =~= rows@);
    r
}

fn delete_statements(t: &str, key: &str, rows: &Vec<Row>) -> (r: Option<Vec<String>>)
    ensures
        match r {
            Some(ls) => all_keyed(rows@, key@) && texts(ls@) == delete_lines(t@, key@, rows@),
            None => !all_keyed(rows@, key@),
        },
{
    let mut r: Vec<String> = Vec::new();
    let mut i: usize = 0;
    while i < rows.len()
        invariant
            i <= rows@.len(),
            all_keyed(rows@.subrange(0, i as int), key@),
            texts(r@) == delete_lines(t@, key@, rows@.subrange(0, i as int)),
        decreases rows@.len() - i,
    {
        match find_value(&rows[i], key) {
            None => {
                return None;
            },
            Some(_) => {},
        }
        push_line(&mut r, delete_statement(t, key, &rows[i]));
        i = i + 1;
        assert(texts(r@) =~= delete_lines(t@, key@, rows@.subrange(0, i as int)));
        assert forall|k: int| 0 <= k < i implies has_key(
            #[trigger] rows@.subrange(0, i as int)[k],
            key@,
        ) by {
            if k < i - 1 {
                assert(rows@.subrange(0, i as int)[k] == rows@.subrange(0, i - 1)[k]);
            }
        }
    }
    assert(rows@.subrange(0, i as int) =~= rows@);
    Some(r)
}

fn update_statements(t: &str, key: &str, ps: &Vec<RowPair>, dir: PatchDirection) -> (r: Option<Vec<String>>)
    ensures
        match r {
            Some(ls) => all_pairs_keyed(ps@, key@, dir) && texts(ls@) == update_lines(t@, key@, ps@, dir),
            None => !all_pairs_keyed(ps@, key@, dir),
        },
{
    let mut r: Vec<String> = Vec::new();
    let mut i: usize = 0;
    assert(ps@.subrange(0, 0) =~= Seq::<RowPair>::empty());
    while i < ps.len()
        invariant
            i <= ps@.len(),
            all_pairs_keyed(ps@.subrange(0, i as int), key@, dir),
            texts(r@) == update_lines(t@, key@, ps@.subrange(0, i as int), dir),
        decreases ps@.len() - i,
    {
        let p = &ps[i];
        let row = if dir == PatchDirection::SourceToTarget {
            &p.source_row
        } else {
            &p.target_row
        };
        match find_value(row, key) {
            None => {
                assert(!has_key(template_row(ps@[i as int], dir), key@));
                return None;
            },
            Some(_) => {},
        }
        assert(ps@.subrange(0, i + 1).drop_last() =~= ps@.subrange(0, i as int));
        assert(ps@.subrange(0, i + 1).last() == ps@[i as int]);
        if p.different_columns.len() > 0 {
            push_line(&mut r, update_statement(t, key, p, dir));
        }
        i = i + 1;
        assert forall|k: int| 0 <= k < i implies has_key(
            template_row(#[trigger] ps@.subrange(0, i as int)[k], dir),
            key@,
        ) by {
            if k < i - 1 {
                assert(ps@.subrange(0, i as int)[k] == ps@.subrange(0, i - 1)[k]);
            }
        }
    }
    assert(ps@.subrange(0, i as int) =~= ps@);
    Some(r)
}

fn count_comment(a: &str, n: usize, b: &str, t: &str) -> (r: String)
    ensures
        r@ == a@ + decimal(n as nat) + b@ + t@,
{
    let mut s = String::from_str(a);
    s.append(decimal_text(n as u64).as_str());
    s.append(b);
    s.append(t);
    s
}

fn missing_lines(d: &TableRowDiff, dir: PatchDirection, ty: PatchType) -> (r: Option<Vec<String>>)
    ensures
        match r {
            Some(ls) => (!covers_missing(ty) || dir == PatchDirection::SourceToTarget || all_keyed(
                d.missing_in_target@,
                d.key_column@,
            )) && texts(ls@) == missing_part(*d, dir, ty),
            None => !(!covers_missing(ty) || dir == PatchDirection::SourceToTarget || all_keyed(
                d.missing_in_target@,
                d.key_column@,
            )),
        },
{
    let mut r: Vec<String> = Vec::new();
    let t = d.table_name.as_str();
    let miss = &d.missing_in_target;
    if (ty == PatchType::All || ty == PatchType::MissingOnly) && miss.len() > 0 {
        if dir == PatchDirection::SourceToTarget {
            push_line(&mut r, count_comment("-- INSERT ", miss.len(), " missing rows into ", t));
            extend_lines(&mut r, insert_statements(t, &d.common_columns, miss));
        } else {
            let mut h = count_comment("-- DELETE ", miss.len(), " extra rows from ", t);
            h.append(" (exist in source only)");
            push_line(&mut r, h);
            match delete_statements(t, d.key_column.as_str(), miss) {
                Some(ls) => extend_lines(&mut r, ls),
                None => {
                    return None;
                },
            }
        }
        push_line(&mut r, String::new());
    }
    assert(texts(r@) =~= missing_part(*d, dir, ty));
    Some(r)
}

fn extra_lines(d: &TableRowDiff, dir: PatchDirection, ty: PatchType) -> (r: Option<Vec<String>>)
    ensures
        match r {
            Some(ls) => (!covers_extra(ty) || dir != PatchDirection::SourceToTarget || all_keyed(
                d.extra_in_target@,
                d.key_column@,
            )) && texts(ls@) == extra_part(*d, dir, ty),
            None => !(!covers_extra(ty) || dir != PatchDirection::SourceToTarget || all_keyed(
                d.extra_in_target@,
                d.key_column@,
            )),
        },
{
    let mut r: Vec<String> = Vec::new();
    let t = d.table_name.as_str();
    let extra = &d.extra_in_target;
    if (ty == PatchType::All || ty == PatchType::ExtraOnly) && extra.len() > 0 {
        if dir == PatchDirection::SourceToTarget {
            push_line(&mut r, count_comment("-- DELETE ", extra.len(), " extra rows from ", t));
            match delete_statements(t, d.key_column.as_str(), extra) {
                Some(ls) => extend_lines(&mut r, ls),
                None => {
                    return None;
                },
            }
        } else {
            let mut h = count_comment("-- INSERT ", extra.len(), " missing rows into ", t);
            h.append(" (exist in target only)");
            push_line(&mut r, h);
            extend_lines(&mut r, insert_statements(t, &d.common_columns, extra));
        }
        push_line(&mut r, String::new());
    }
    assert(texts(r@) =~= extra_part(*d, dir, ty));
    Some(r)
}

fn different_lines(d: &TableRowDiff, dir: PatchDirection, ty: PatchType) -> (r: Option<Vec<String>>)
    ensures
        match r {
            Some(ls) => (!covers_different(ty) || all_pairs_keyed(d.different_rows@, d.key_column@, dir))
                && texts(ls@) == different_part(*d, dir, ty),
            None => !(!covers_different(ty) || all_pairs_keyed(d.different_rows@, d.key_column@, dir)),
        },
{
    let mut r: Vec<String> = Vec::new();
    let t = d.table_name.as_str();
    let diff = &d.different_rows;
    if ty == PatchType::All || ty == PatchType::DifferentOnly {
        if diff.len() == 0 {
            assert(all_pairs_keyed(d.different_rows@, d.key_column@, dir));
        } else {
            push_line(&mut r, count_comment("-- UPDATE ", diff.len(), " different rows in ", t));
            match update_statements(t, d.key_column.as_str(), diff, dir) {
                Some(ls) => extend_lines(&mut r, ls),
                None => {
                    return None;
                },
            }
            push_line(&mut r, String::new());
        }
    }
    assert(texts(r@) =~= different_part(*d, dir, ty));
    Some(r)
}

/// The lines that reconcile one table (see `table_data_lines`), or the
/// error naming the table and key column where a row that a `DELETE` or
/// `UPDATE` needs has no key value.
pub fn table_data_patch_lines(d: &TableRowDiff, dir: PatchDirection, ty: PatchType) -> (r: Result<Vec<String>, DataPatchError>)
    ensures
        match r {
            Ok(ls) => keys_present(*d, dir, ty) && texts(ls@) == table_data_lines(*d, dir, ty),
            Err(DataPatchError::MissingKeyValue(t, k)) => !keys_present(*d, dir, ty) && t@ == d.table_name@
                && k@ == d.key_column@,
        },
{
    let mut r: Vec<String> = Vec::new();
    if d.common_columns.len() == 0 {
        assert(texts(r@) =~= table_data_lines(*d, dir, ty));
        return Ok(r);
    }
    let fail = DataPatchError::MissingKeyValue(d.table_name.clone(), d.key_column.clone());
    match missing_lines(d, dir, ty) {
        Some(ls) => extend_lines(&mut r, ls),
        None => {
            return Err(fail);
        },
    }
    match extra_lines(d, dir, ty) {
        Some(ls) => extend_lines(&mut r, ls),
        None => {
            return Err(fail);
        },
    }
    match different_lines(d, dir, ty) {
        Some(ls) => extend_lines(&mut r, ls),
        None => {
            return Err(fail);
        },
    }
    assert(texts(r@) =~= table_data_lines(*d, dir, ty));
    Ok(r)
}


/// The comment lines and opening transaction of a data patch.
pub open spec fn data_header(db1: Seq<char>, db2: Seq<char>, dir: PatchDirection, stamp: Seq<char>) -> Seq<Seq<char>> {
    let (d, a) = if dir == PatchDirection::SourceToTarget {
        ("-- Direction: Source -> Target (Forward)"@, "-- Apply to: "@ + db2 + " (Target)"@)
    } else {
        ("-- Direction: Target -> Source (Reverse)"@, "-- Apply to: "@ + db1 + " (Source)"@)
    };
    seq![
        "-- Data Synchronization Patch"@,
        d,
        a,
        "-- Generated: "@ + stamp + " UTC"@,
        Seq::empty(),
        "BEGIN TRANSACTION;"@,
        Seq::empty(),
    ]
}

/// The lines of all tables, in order.
pub open spec fn tables_data_lines(ds: Seq<TableRowDiff>, dir: PatchDirection, ty: PatchType) -> Seq<Seq<char>>
    decreases ds.len(),
{
    if ds.len() == 0 {
        Seq::empty()
    } else {
        tables_data_lines(ds.drop_last(), dir, ty) + table_data_lines(ds.last(), dir, ty)
    }
}

/// The table and key column of the first table whose patch lacks a key value.
pub open spec fn first_key_failure(ds: Seq<TableRowDiff>, dir: PatchDirection, ty: PatchType) -> Option<(Seq<char>, Seq<char>)>
    decreases ds.len(),
{
    if ds.len() == 0 {
        None
    } else {
        let p = first_key_failure(ds.drop_last(), dir, ty);
        if p is Some {
            p
        } else if !keys_present(ds.last(), dir, ty) {
            Some((ds.last().table_name@, ds.last().key_column@))
        } else {
            None
        }
    }
}

/// The whole data patch: header, each table's lines, and the closing commit.
pub open spec fn data_patch(
    db1: Seq<char>,
    db2: Seq<char>,
    ds: Seq<TableRowDiff>,
    dir: PatchDirection,
    ty: PatchType,
    stamp: Seq<char>,
) -> Seq<Seq<char>> {
    data_header(db1, db2, dir, stamp) + tables_data_lines(ds, dir, ty) + seq!["COMMIT;"@]
}

/// The header lines of a data patch (see `data_header`).
pub fn data_patch_header_lines(db1: &str, db2: &str, dir: PatchDirection, stamp: &str) -> (r: Vec<String>)
    ensures
        texts(r@) == data_header(db1@, db2@, dir, stamp@),
{
    let mut r: Vec<String> = Vec::new();
    push_line(&mut r, String::from_str("-- Data Synchronization Patch"));
    if dir == PatchDirection::SourceToTarget {
        push_line(&mut r, String::from_str("-- Direction: Source -> Target (Forward)"));
        let mut a = concat("-- Apply to: ", db2);
        a.append(" (Target)");
        push_line(&mut r, a);
    } else {
        push_line(&mut r, String::from_str("-- Direction: Target -> Source (Reverse)"));
        let mut a = concat("-- Apply to: ", db1);
        a.append(" (Source)");
        push_line(&mut r, a);
    }
    let mut g = concat("-- Generated: ", stamp);
    g.append(" UTC");
    push_line(&mut r, g);
    push_line(&mut r, String::new());
    push_line(&mut r, String::from_str("BEGIN TRANSACTION;"));
    push_line(&mut r, String::new());
    assert(texts(r@) =~= data_header(db1@, db2@, dir, stamp@));
    r
}

proof fn lemma_first_failure_sticks(ds: Seq<TableRowDiff>, dir: PatchDirection, ty: PatchType, i: int)
    requires
        0 <= i <= ds.len(),
        first_key_failure(ds.subrange(0, i), dir, ty) is Some,
    ensures
        first_key_failure(ds, dir, ty) == first_key_failure(ds.subrange(0, i), dir, ty),
    decreases ds.len(),
{
    if ds.len() == i {
        assert(ds.subrange(0, i) =~= ds);
    } else {
        assert(ds.drop_last().subrange(0, i) =~= ds.subrange(0, i));
        lemma_first_failure_sticks(ds.drop_last(), dir, ty, i);
    }
}

/// The lines of the data patch (see `data_patch`), or the error of the first
/// table with a row that lacks its key value.
pub fn data_patch_lines(
    db1: &str,
    db2: &str,
    ds: &Vec<TableRowDiff>,
    dir: PatchDirection,
    ty: PatchType,
    stamp: &str,
) -> (r: Result<Vec<String>, DataPatchError>)
    ensures
        match r {
            Ok(ls) => first_key_failure(ds@, dir, ty) is None && texts(ls@) == data_patch(db1@, db2@, ds@, dir, ty, stamp@),
            Err(DataPatchError::MissingKeyValue(t, k)) => first_key_failure(ds@, dir, ty) == Some((t@, k@)),
        },
{
    let mut r = data_patch_header_lines(db1, db2, dir, stamp);
    let ghost head = texts(r@);
    let mut i: usize = 0;
    assert(ds@.subrange(0, 0) =~= Seq::<TableRowDiff>::empty());
    while i < ds.len()
        invariant
            i <= ds@.len(),
            first_key_failure(ds@.subrange(0, i as int), dir, ty) is None,
            texts(r@) == head + tables_data_lines(ds@.subrange(0, i as int), dir, ty),
        decreases ds@.len() - i,
    {
        assert(ds@.subrange(0, i + 1).drop_last() =~= ds@.subrange(0, i as int));
        assert(ds@.subrange(0, i + 1).last() == ds@[i as int]);
        match table_data_patch_lines(&ds[i], dir, ty) {
            Ok(ls) => extend_lines(&mut r, ls),
            Err(e) => {
                proof {
                    lemma_first_failure_sticks(ds@, dir, ty, i + 1);
                }
                return Err(e);
            },
        }
        i = i + 1;
        assert(texts(r@) =~= head + tables_data_lines(ds@.subrange(0, i as int), dir, ty));
    }
    assert(ds@.subrange(0, i as int) =~= ds@);
    push_line(&mut r, String::from_str("COMMIT;"));
    assert(texts(r@) =~= data_patch(db1@, db2@, ds@, dir, ty, stamp@));
    Ok(r)
}

/// Generates the data patch text, stamped with the current time (see
/// `data_patch`). It fails exactly when a row that a `DELETE` or `UPDATE`
/// needs lacks its key value.
pub fn generate_data_patch(
    db1: &str,
    db2: &str,
    ds: &Vec<TableRowDiff>,
    dir: PatchDirection,
    ty: PatchType,
) -> (r: Result<String, DataPatchError>)
    ensures
        match r {
            Ok(text) => first_key_failure(ds@, dir, ty) is None && exists|stamp: Seq<char>|
                text@ == lines_text(data_patch(db1@, db2@, ds@, dir, ty, stamp)),
            Err(DataPatchError::MissingKeyValue(t, k)) => first_key_failure(ds@, dir, ty) == Some((t@, k@)),
        },
{
    let stamp = utc_now_text();
    match data_patch_lines(db1, db2, ds, dir, ty, stamp.as_str()) {
        Ok(ls) => Ok(join_lines(&ls)),
        Err(e) => Err(e),
    }
}

/// How many leading bytes of a patch file its preview shows.
pub const PREVIEW_BYTES: u64 = 5120;

/// The size from which a patch file counts as large.
pub const LARGE_PATCH_BYTES: u64 = 5242880;

/// A patch written to a file: where, how large, its first bytes, and whether
/// it is large.
#[derive(Clone, Debug)]
pub struct PatchEnvelope {
    pub file_path: String,
    pub file_size: u64,
    pub preview: String,
    pub is_large: bool,
}

pub open spec fn truncation_marker() -> Seq<char> {
    "\n\n... (remaining content truncated for preview) ..."@
}

/// Describes a patch file of `file_size` bytes whose first bytes read as
/// `head`: the preview is marked as truncated when the file is longer than
/// the preview, and the patch is large from `LARGE_PATCH_BYTES` on.
pub fn patch_envelope(file_path: String, file_size: u64, head: String) -> (r: PatchEnvelope)
    ensures
        r.file_path@ == file_path@,
        r.file_size == file_size,
        r.preview@ == (if file_size > PREVIEW_BYTES {
            head@ + truncation_marker()
        } else {
            head@
        }),
        r.is_large == (file_size > LARGE_PATCH_BYTES),
{
    let mut preview = head;
    if file_size > PREVIEW_BYTES {
        preview.append("\n\n... (remaining content truncated for preview) ...");
    }
    PatchEnvelope { file_path, file_size, preview, is_large: file_size > LARGE_PATCH_BYTES }
}

} // verus!
