//! The schema patch generator: DDL that makes the mutated database's schema
//! match the template's, with table recreation where `ALTER TABLE` cannot.

use vstd::prelude::*;
use vstd::string::*;
use crate::model::{ColumnInfo, TableInfo, TableChange, ColumnChange};
use crate::schema_diff::{
    has_column, has_table, table_named, tables_identical, table_change, unique_columns, well_formed,
    find_column, find_table, lemma_table_named, compare_tables, tables_are_identical,
};
use crate::schema_laws::column_names;
use crate::sql_text::{
    quoted_name, quote_name, joined, join_with, fix_collations, fixed_collations, push_line,
    extend_lines,
};
use crate::text::texts;
use crate::sql_text::{lines_text, join_lines};
use crate::clock::utc_now_text;

verus! {

/// Which database serves as the template; the other one is changed to match it.
#[derive(Clone, Copy, Debug, PartialEq, Eq, Structural)]
pub enum PatchDirection {
    /// The first (source) database is the template; the second is changed.
    SourceToTarget,
    /// The second (target) database is the template; the first is changed.
    TargetToSource,
}

impl PatchDirection {
    /// `"target_to_source"` selects the reverse direction; anything else the forward one.
    pub fn parse(flag: &str) -> (r: PatchDirection)
        ensures
            r == (if flag@ == "target_to_source"@ {
                PatchDirection::TargetToSource
            } else {
                PatchDirection::SourceToTarget
            }),
    {
        if String::from_str(flag) == String::from_str("target_to_source") {
            PatchDirection::TargetToSource
        } else {
            PatchDirection::SourceToTarget
        }
    }
}

/// Why no schema patch could be made.
#[derive(Clone, Debug)]
pub enum SchemaPatchError {
    /// Recreating the named table would keep none of its columns, so all of
    /// its rows would be lost.
    NoCommonColumns(String),
}

/// What a modified table needs.
#[derive(Clone, Copy, Debug, PartialEq, Eq, Structural)]
pub enum TablePlan {
    /// Nothing that DDL can express.
    Unchanged,
    /// Columns appended at the end, one `ALTER TABLE ... ADD COLUMN` each.
    AddColumns,
    /// The rename, create, copy and drop sequence.
    Recreate,
}

/// Every column of the template `tt` that the mutated table `mt` lacks sits
/// at a position at or after `mt`'s column count.
pub open spec fn added_at_tail(tt: Seq<ColumnInfo>, mt: Seq<ColumnInfo>) -> bool {
    forall|i: int| 0 <= i < tt.len() && !has_column(mt, (#[trigger] tt[i]).name@) ==> i >= mt.len()
}

/// The plan for turning table `mt` into the template table `tt`: recreation
/// where columns must go, change, or land before the last current column.
pub open spec fn plan_of(mt: TableInfo, tt: TableInfo) -> TablePlan {
    let ch = table_change(mt, tt);
    if ch.removed.len() > 0 || ch.modified.len() > 0 || !added_at_tail(tt.columns@, mt.columns@) {
        TablePlan::Recreate
    } else if ch.added.len() > 0 {
        TablePlan::AddColumns
    } else {
        TablePlan::Unchanged
    }
}

/// A template column that the mutated table lacks and that must land before
/// its last current column always forces recreation, whatever else differs.
/// A table whose only difference is template columns it lacks is altered in
/// place exactly when all of them sit at or after its current column count.
pub proof fn lemma_tail_columns_decide_recreation(mt: TableInfo, tt: TableInfo)
    ensures
        (exists|i: int|
            0 <= i < tt.columns@.len() && !has_column(mt.columns@, (#[trigger] tt.columns@[i]).name@)
                && i < mt.columns@.len()) ==> plan_of(mt, tt) == TablePlan::Recreate,
        table_change(mt, tt).removed.len() == 0 && table_change(mt, tt).modified.len() == 0
            && table_change(mt, tt).added.len() > 0 ==> (plan_of(mt, tt) == TablePlan::AddColumns
            <==> added_at_tail(tt.columns@, mt.columns@)),
{
}

/// The names of the template's columns that the mutated table also has, in
/// the template's order: the columns a recreation copies.
pub open spec fn common_columns(tt: Seq<ColumnInfo>, mt: Seq<ColumnInfo>) -> Seq<Seq<char>>
    decreases tt.len(),
{
    if tt.len() == 0 {
        Seq::empty()
    } else {
        let p = common_columns(tt.drop_last(), mt);
        if has_column(mt, tt.last().name@) {
            p.push(tt.last().name@)
        } else {
            p
        }
    }
}

/// The copy would keep no column.
pub open spec fn loses_data(mt: TableInfo, tt: TableInfo) -> bool {
    plan_of(mt, tt) == TablePlan::Recreate && common_columns(tt.columns@, mt.columns@).len() == 0
}

/// `ALTER TABLE` adding column `c` to `table`, with its type, nullability and default.
pub open spec fn add_column_line(table: Seq<char>, c: ColumnInfo) -> Seq<char> {
    "ALTER TABLE "@ + quoted_name(table) + " ADD COLUMN "@ + quoted_name(c.name@) + " "@
        + c.data_type@ + (if c.is_nullable {
        Seq::empty()
    } else {
        " NOT NULL"@
    }) + (match c.default_value {
        Some(d) => " DEFAULT "@ + d@,
        None => Seq::empty(),
    }) + ";"@
}

pub open spec fn add_column_lines(table: Seq<char>, cs: Seq<ColumnInfo>) -> Seq<Seq<char>> {
    cs.map_values(|c: ColumnInfo| add_column_line(table, c))
}

/// The column list of a recreation's copy: quoted names joined by commas.
pub open spec fn column_list(names: Seq<Seq<char>>) -> Seq<char> {
    joined(names.map_values(|n: Seq<char>| quoted_name(n)), ", "@)
}

/// The name the old table has while its replacement is made.
pub open spec fn old_name(t: Seq<char>) -> Seq<char> {
    quoted_name(t + "_old"@)
}

/// The eight steps of a recreation of `t` from the template text `create`,
/// copying the columns in `list`.
pub open spec fn recreation_steps(t: Seq<char>, create: Seq<char>, list: Seq<char>) -> Seq<Seq<char>> {
    seq![
        "PRAGMA foreign_keys=off;"@,
        Seq::empty(),
        "BEGIN IMMEDIATE;"@,
        Seq::empty(),
        "ALTER TABLE "@ + quoted_name(t) + " RENAME TO "@ + old_name(t) + ";"@,
        Seq::empty(),
        fix_collations(create) + ";"@,
        Seq::empty(),
        "INSERT INTO "@ + quoted_name(t) + " ("@ + list + ")"@,
        "SELECT "@ + list,
        "FROM "@ + old_name(t) + ";"@,
        Seq::empty(),
        "DROP TABLE "@ + old_name(t) + ";"@,
        Seq::empty(),
        "COMMIT;"@,
        Seq::empty(),
        "PRAGMA foreign_keys=on;"@,
        Seq::empty(),
    ]
}

pub open spec fn modified_note(m: ColumnChange) -> Seq<char> {
    "--   Modified: "@ + m.column + " ("@ + m.old_type + " -> "@ + m.new_type + ")"@
}

/// Comment lines that record what a recreation changes; `side` names the template.
pub open spec fn change_notes(ch: TableChange, side: Seq<char>) -> Seq<Seq<char>> {
    let a: Seq<Seq<char>> = if ch.added.len() > 0 {
        seq!["--   Added (from "@ + side + "): "@ + joined(column_names(ch.added), ", "@)]
    } else {
        Seq::empty()
    };
    let d = if ch.removed.len() > 0 {
        a.push("--   Dropped (not in "@ + side + "): "@ + joined(ch.removed, ", "@))
    } else {
        a
    };
    seq!["-- Changes applied:"@] + d + ch.modified.map_values(|m: ColumnChange| modified_note(m))
}

/// The lines for one modified table; `side` names the template.
pub open spec fn table_section(mt: TableInfo, tt: TableInfo, side: Seq<char>) -> Seq<Seq<char>> {
    let t = mt.name@;
    match plan_of(mt, tt) {
        TablePlan::Unchanged => Seq::empty(),
        TablePlan::AddColumns => seq!["-- Modify table: "@ + t + " (add columns from "@ + side + ")"@]
            + add_column_lines(t, table_change(mt, tt).added) + seq![Seq::empty()],
        TablePlan::Recreate => seq!["-- Recreate table: "@ + t]
            + recreation_steps(t, tt.create_sql@, column_list(common_columns(tt.columns@, mt.columns@)))
            + change_notes(table_change(mt, tt), side) + seq![Seq::empty()],
    }
}

fn column_is_appended(tt: &Vec<ColumnInfo>, mt: &Vec<ColumnInfo>) -> (r: bool)
    ensures
        r == added_at_tail(tt@, mt@),
{
    let mut i: usize = 0;
    while i < tt.len()
        invariant
            i <= tt@.len(),
            forall|k: int| 0 <= k < i && !has_column(mt@, (#[trigger] tt@[k]).name@) ==> k >= mt@.len(),
        decreases tt@.len() - i,
    {
        if i < mt.len() {
            match find_column(mt, &tt[i].name) {
                None => {
                    return false;
                },
                Some(_) => {},
            }
        }
        i = i + 1;
    }
    true
}

/// The plan for turning table `mt` into the template table `tt` (see `plan_of`).
pub fn plan_table(mt: &TableInfo, tt: &TableInfo) -> (r: TablePlan)
    requires
        unique_columns(tt.columns@),
    ensures
        r == plan_of(*mt, *tt),
{
    let d = compare_tables(mt, tt);
    if d.removed_columns.len() > 0 || d.modified_columns.len() > 0 || !column_is_appended(
        &tt.columns,
        &mt.columns,
    ) {
        TablePlan::Recreate
    } else if d.added_columns.len() > 0 {
        TablePlan::AddColumns
    } else {
        TablePlan::Unchanged
    }
}

fn common_column_names(tt: &Vec<ColumnInfo>, mt: &Vec<ColumnInfo>) -> (r: Vec<String>)
    ensures
        texts(r@) == common_columns(tt@, mt@),
{
    let mut r: Vec<String> = Vec::new();
    let mut i: usize = 0;
    assert(tt@.subrange(0, 0) =~= Seq::<ColumnInfo>::empty());
    while i < tt.len()
        invariant
            i <= tt@.len(),
            texts(r@) == common_columns(tt@.subrange(0, i as int), mt@),
        decreases tt@.len() - i,
    {
        assert(tt@.subrange(0, i + 1).drop_last() =~= tt@.subrange(0, i as int));
        assert(tt@.subrange(0, i + 1).last() == tt@[i as int]);
        match find_column(mt, &tt[i].name) {
            Some(_) => {
                push_line(&mut r, tt[i].name.clone());
            },
            None => {},
        }
        i = i + 1;
    }
    assert(tt@.subrange(0, i as int) =~= tt@);
    r
}

fn quoted_list(names: &Vec<String>) -> (r: String)
    ensures
        r@ == column_list(texts(names@)),
{
    let mut q: Vec<String> = Vec::new();
    let mut i: usize = 0;
    while i < names.len()
        invariant
            i <= names@.len(),
            texts(q@) == texts(names@).subrange(0, i as int).map_values(|n: Seq<char>| quoted_name(n)),
        decreases names@.len() - i,
    {
        push_line(&mut q, quote_name(names[i].as_str()));
        i = i + 1;
        assert(texts(q@) =~= texts(names@).subrange(0, i as int).map_values(
            |n: Seq<char>| quoted_name(n),
        ));
    }
    assert(texts(names@).subrange(0, i as int) =~= texts(names@));
    join_with(&q, ", ")
}

fn add_column_statement(table: &str, c: &ColumnInfo) -> (r: String)
    ensures
        r@ == add_column_line(table@, *c),
{
    let mut s = String::from_str("ALTER TABLE ");
    s.append(quote_name(table).as_str());
    s.append(" ADD COLUMN ");
    s.append(quote_name(c.name.as_str()).as_str());
    s.append(" ");
    s.append(c.data_type.as_str());
    if !c.is_nullable {
        s.append(" NOT NULL");
    }
    match &c.default_value {
        Some(d) => {
            s.append(" DEFAULT ");
            s.append(d.as_str());
        },
        None => {},
    }
    s.append(";");
    assert(s@ =~= add_column_line(table@, *c));
    s
}

fn old_table_name(t: &str) -> (r: String)
    ensures
        r@ == old_name(t@),
{
    let mut n = String::from_str(t);
    n.append("_old");
    quote_name(n.as_str())
}

fn labelled(a: &str, b: &str) -> (r: String)
    ensures
        r@ == a@ + b@,
{
    let mut s = String::from_str(a);
    s.append(b);
    s
}

fn recreation_step_lines(t: &str, create: &str, list: &str) -> (r: Vec<String>)
    ensures
        texts(r@) == recreation_steps(t@, create@, list@),
{
    let q = quote_name(t);
    let old = old_table_name(t);
    let mut r: Vec<String> = Vec::new();
    push_line(&mut r, String::from_str("PRAGMA foreign_keys=off;"));
    push_line(&mut r, String::new());
    push_line(&mut r, String::from_str("BEGIN IMMEDIATE;"));
    push_line(&mut r, String::new());
    let mut s = labelled("ALTER TABLE ", q.as_str());
    s.append(" RENAME TO ");
    s.append(old.as_str());
    s.append(";");
    push_line(&mut r, s);
    push_line(&mut r, String::new());
    let mut c = fixed_collations(create);
    c.append(";");
    push_line(&mut r, c);
    push_line(&mut r, String::new());
    let mut ins = labelled("INSERT INTO ", q.as_str());
    ins.append(" (");
    ins.append(list);
    ins.append(")");
    push_line(&mut r, ins);
    push_line(&mut r, labelled("SELECT ", list));
    let mut from = labelled("FROM ", old.as_str());
    from.append(";");
    push_line(&mut r, from);
    push_line(&mut r, String::new());
    let mut drop = labelled("DROP TABLE ", old.as_str());
    drop.append(";");
    push_line(&mut r, drop);
    push_line(&mut r, String::new());
    push_line(&mut r, String::from_str("COMMIT;"));
    push_line(&mut r, String::new());
    push_line(&mut r, String::from_str("PRAGMA foreign_keys=on;"));
    push_line(&mut r, String::new());
    assert(texts(r@) =~= recreation_steps(t@, create@, list@));
    r
}

fn column_name_list(cs: &Vec<ColumnInfo>) -> (r: Vec<String>)
    ensures
        texts(r@) == column_names(cs@),
{
    let mut r: Vec<String> = Vec::new();
    let mut i: usize = 0;
    while i < cs.len()
        invariant
            i <= cs@.len(),
            texts(r@) == column_names(cs@.subrange(0, i as int)),
        decreases cs@.len() - i,
    {
        push_line(&mut r, cs[i].name.clone());
        i = i + 1;
        assert(texts(r@) =~= column_names(cs@.subrange(0, i as int)));
    }
    assert(cs@.subrange(0, i as int) =~= cs@);
    r
}

fn change_note_lines(d: &crate::model::TableDiff, side: &str) -> (r: Vec<String>)
    ensures
        texts(r@) == change_notes(d@, side@),
{
    let mut r: Vec<String> = Vec::new();
    push_line(&mut r, String::from_str("-- Changes applied:"));
    if d.added_columns.len() > 0 {
        let mut s = labelled("--   Added (from ", side);
        s.append("): ");
        s.append(join_with(&column_name_list(&d.added_columns), ", ").as_str());
        push_line(&mut r, s);
    }
    if d.removed_columns.len() > 0 {
        let mut s = labelled("--   Dropped (not in ", side);
        s.append("): ");
        s.append(join_with(&d.removed_columns, ", ").as_str());
        push_line(&mut r, s);
    }
    let ghost notes = texts(r@);
    let ms = &d.modified_columns;
    let mut i: usize = 0;
    while i < ms.len()
        invariant
            i <= ms@.len(),
            texts(r@) == notes + ms@.subrange(0, i as int).map_values(
                |m: crate::model::ColumnDiff| modified_note(m@),
            ),
        decreases ms@.len() - i,
    {
        let m = &ms[i];
        let mut s = labelled("--   Modified: ", m.column_name.as_str());
        s.append(" (");
        s.append(m.old_type.as_str());
        s.append(" -> ");
        s.append(m.new_type.as_str());
        s.append(")");
        push_line(&mut r, s);
        i = i + 1;
        assert(texts(r@) =~= notes + ms@.subrange(0, i as int).map_values(
            |m: crate::model::ColumnDiff| modified_note(m@),
        ));
    }
    assert(ms@.subrange(0, i as int).map_values(|m: crate::model::ColumnDiff| modified_note(m@))
        =~= d@.modified.map_values(|m: ColumnChange| modified_note(m)));
    assert(texts(r@) =~= change_notes(d@, side@));
    r
}

/// The lines that turn table `mt` into the template table `tt`, or the
/// data-loss error where a recreation would keep no column.
pub fn table_section_lines(mt: &TableInfo, tt: &TableInfo, side: &str) -> (r: Result<Vec<String>, SchemaPatchError>)
    requires
        unique_columns(tt.columns@),
    ensures
        match r {
            Ok(ls) => !loses_data(*mt, *tt) && texts(ls@) == table_section(*mt, *tt, side@),
            Err(SchemaPatchError::NoCommonColumns(t)) => loses_data(*mt, *tt) && t@ == mt.name@,
        },
{
    let t = mt.name.as_str();
    let plan = plan_table(mt, tt);
    let mut r: Vec<String> = Vec::new();
    match plan {
        TablePlan::Unchanged => {
            assert(texts(r@) =~= table_section(*mt, *tt, side@));
        },
        TablePlan::AddColumns => {
            let d = compare_tables(mt, tt);
            let mut head = labelled("-- Modify table: ", t);
            head.append(" (add columns from ");
            head.append(side);
            head.append(")");
            push_line(&mut r, head);
            let ghost start = texts(r@);
            let cs = &d.added_columns;
            let mut i: usize = 0;
            while i < cs.len()
                invariant
                    i <= cs@.len(),
                    texts(r@) == start + add_column_lines(t@, cs@.subrange(0, i as int)),
                decreases cs@.len() - i,
            {
                push_line(&mut r, add_column_statement(t, &cs[i]));
                i = i + 1;
                assert(texts(r@) =~= start + add_column_lines(t@, cs@.subrange(0, i as int)));
            }
            assert(cs@.subrange(0, i as int) =~= cs@);
            push_line(&mut r, String::new());
            assert(texts(r@) =~= table_section(*mt, *tt, side@));
        },
        TablePlan::Recreate => {
            let common = common_column_names(&tt.columns, &mt.columns);
            if common.len() == 0 {
                return Err(SchemaPatchError::NoCommonColumns(mt.name.clone()));
            }
            let d = compare_tables(mt, tt);
            push_line(&mut r, labelled("-- Recreate table: ", t));
            let list = quoted_list(&common);
            extend_lines(&mut r, recreation_step_lines(t, tt.create_sql.as_str(), list.as_str()));
            extend_lines(&mut r, change_note_lines(&d, side));
            push_line(&mut r, String::new());
            assert(texts(r@) =~= table_section(*mt, *tt, side@));
        },
    }
    Ok(r)
}


pub open spec fn template_of(dir: PatchDirection, source: Seq<TableInfo>, target: Seq<TableInfo>) -> Seq<TableInfo> {
    if dir == PatchDirection::SourceToTarget {
        source
    } else {
        target
    }
}

pub open spec fn mutated_of(dir: PatchDirection, source: Seq<TableInfo>, target: Seq<TableInfo>) -> Seq<TableInfo> {
    if dir == PatchDirection::SourceToTarget {
        target
    } else {
        source
    }
}

/// The word that names the template side in comments.
pub open spec fn template_side(dir: PatchDirection) -> Seq<char> {
    if dir == PatchDirection::SourceToTarget {
        "source"@
    } else {
        "target"@
    }
}

/// For each template table that the mutated schema lacks: its `CREATE TABLE`
/// text with collations fixed.
pub open spec fn create_lines(ts: Seq<TableInfo>, ms: Seq<TableInfo>, side: Seq<char>) -> Seq<Seq<char>>
    decreases ts.len(),
{
    if ts.len() == 0 {
        Seq::empty()
    } else {
        let p = create_lines(ts.drop_last(), ms, side);
        let t = ts.last();
        if !has_table(ms, t.name@) {
            p + seq![
                "-- Create table from "@ + side,
                fix_collations(t.create_sql@) + ";"@,
                Seq::empty(),
            ]
        } else {
            p
        }
    }
}

/// For each mutated table that the template lacks: `DROP TABLE IF EXISTS`.
pub open spec fn drop_lines(ms: Seq<TableInfo>, ts: Seq<TableInfo>, side: Seq<char>) -> Seq<Seq<char>>
    decreases ms.len(),
{
    if ms.len() == 0 {
        Seq::empty()
    } else {
        let p = drop_lines(ms.drop_last(), ts, side);
        let m = ms.last();
        if !has_table(ts, m.name@) {
            p + seq![
                "-- Drop table not in "@ + side,
                "DROP TABLE IF EXISTS "@ + quoted_name(m.name@) + ";"@,
                Seq::empty(),
            ]
        } else {
            p
        }
    }
}

/// The template holds table `m` too, but not identically.
pub open spec fn is_modified(m: TableInfo, ts: Seq<TableInfo>) -> bool {
    has_table(ts, m.name@) && !tables_identical(m, table_named(ts, m.name@))
}

/// The sections of the modified tables, in the mutated schema's order.
pub open spec fn section_lines(ms: Seq<TableInfo>, ts: Seq<TableInfo>, side: Seq<char>) -> Seq<Seq<char>>
    decreases ms.len(),
{
    if ms.len() == 0 {
        Seq::empty()
    } else {
        let p = section_lines(ms.drop_last(), ts, side);
        let m = ms.last();
        if is_modified(m, ts) {
            p + table_section(m, table_named(ts, m.name@), side)
        } else {
            p
        }
    }
}

/// The first modified table, in the mutated schema's order, whose
/// recreation would keep no column.
pub open spec fn first_data_loss(ms: Seq<TableInfo>, ts: Seq<TableInfo>) -> Option<Seq<char>>
    decreases ms.len(),
{
    if ms.len() == 0 {
        None
    } else {
        let p = first_data_loss(ms.drop_last(), ts);
        let m = ms.last();
        if p is Some {
            p
        } else if is_modified(m, ts) && loses_data(m, table_named(ts, m.name@)) {
            Some(m.name@)
        } else {
            None
        }
    }
}

/// Some modified table needs recreation.
pub open spec fn any_recreation(ms: Seq<TableInfo>, ts: Seq<TableInfo>) -> bool
    decreases ms.len(),
{
    if ms.len() == 0 {
        false
    } else {
        let m = ms.last();
        any_recreation(ms.drop_last(), ts) || (is_modified(m, ts) && plan_of(
            m,
            table_named(ts, m.name@),
        ) == TablePlan::Recreate)
    }
}

/// The comment lines that open a schema patch.
pub open spec fn header_lines(dir: PatchDirection, db1: Seq<char>, db2: Seq<char>, stamp: Seq<char>) -> Seq<Seq<char>> {
    let (d, t, a) = if dir == PatchDirection::SourceToTarget {
        (
            "-- Direction: Source -> Target (Forward)"@,
            "-- Template: "@ + db1 + " (Source)"@,
            "-- Apply to: "@ + db2 + " (Target)"@,
        )
    } else {
        (
            "-- Direction: Target -> Source (Reverse)"@,
            "-- Template: "@ + db2 + " (Target)"@,
            "-- Apply to: "@ + db1 + " (Source)"@,
        )
    };
    seq![
        "-- Schema Migration Patch"@,
        d,
        t,
        a,
        "-- Generated: "@ + stamp,
        Seq::empty(),
        "-- NOTE: PRAGMA statements require the transaction to be committed first."@,
        "-- If running in DB Browser, close any open transactions before executing."@,
        Seq::empty(),
    ]
}

/// The schema patch that makes the mutated database match the template:
/// tables created, tables dropped, modified tables altered or recreated. It
/// runs in one outer transaction unless a recreation manages its own.
pub open spec fn schema_patch(
    db1: Seq<char>,
    db2: Seq<char>,
    source: Seq<TableInfo>,
    target: Seq<TableInfo>,
    dir: PatchDirection,
    stamp: Seq<char>,
) -> Seq<Seq<char>> {
    let ts = template_of(dir, source, target);
    let ms = mutated_of(dir, source, target);
    let side = template_side(dir);
    let wrap = !any_recreation(ms, ts);
    header_lines(dir, db1, db2, stamp) + (if wrap {
        seq!["BEGIN TRANSACTION;"@, Seq::empty()]
    } else {
        Seq::empty()
    }) + create_lines(ts, ms, side) + drop_lines(ms, ts, side) + section_lines(ms, ts, side) + (
    if wrap {
        seq!["COMMIT;"@]
    } else {
        Seq::empty()
    }) + seq![Seq::empty(), "-- Migration complete"@]
}

proof fn lemma_first_loss_sticks(ms: Seq<TableInfo>, ts: Seq<TableInfo>, i: int)
    requires
        0 <= i <= ms.len(),
        first_data_loss(ms.subrange(0, i), ts) is Some,
    ensures
        first_data_loss(ms, ts) == first_data_loss(ms.subrange(0, i), ts),
    decreases ms.len(),
{
    if ms.len() == i {
        assert(ms.subrange(0, i) =~= ms);
    } else {
        assert(ms.drop_last().subrange(0, i) =~= ms.subrange(0, i));
        lemma_first_loss_sticks(ms.drop_last(), ts, i);
    }
}

/// Tells whether recreating `mt` as `tt` would keep no column (see `loses_data`).
fn would_lose_data(mt: &TableInfo, tt: &TableInfo) -> (r: bool)
    requires
        unique_columns(tt.columns@),
    ensures
        r == loses_data(*mt, *tt),
{
    plan_table(mt, tt) == TablePlan::Recreate && common_column_names(&tt.columns, &mt.columns).len()
        == 0
}

fn header_line_list(dir: PatchDirection, db1: &str, db2: &str, stamp: &str) -> (r: Vec<String>)
    ensures
        texts(r@) == header_lines(dir, db1@, db2@, stamp@),
{
    let mut r: Vec<String> = Vec::new();
    push_line(&mut r, String::from_str("-- Schema Migration Patch"));
    match dir {
        PatchDirection::SourceToTarget => {
            push_line(&mut r, String::from_str("-- Direction: Source -> Target (Forward)"));
            let mut t = labelled("-- Template: ", db1);
            t.append(" (Source)");
            push_line(&mut r, t);
            let mut a = labelled("-- Apply to: ", db2);
            a.append(" (Target)");
            push_line(&mut r, a);
        },
        PatchDirection::TargetToSource => {
            push_line(&mut r, String::from_str("-- Direction: Target -> Source (Reverse)"));
            let mut t = labelled("-- Template: ", db2);
            t.append(" (Target)");
            push_line(&mut r, t);
            let mut a = labelled("-- Apply to: ", db1);
            a.append(" (Source)");
            push_line(&mut r, a);
        },
    }
    push_line(&mut r, labelled("-- Generated: ", stamp));
    push_line(&mut r, String::new());
    push_line(
        &mut r,
        String::from_str("-- NOTE: PRAGMA statements require the transaction to be committed first."),
    );
    push_line(
        &mut r,
        String::from_str("-- If running in DB Browser, close any open transactions before executing."),
    );
    push_line(&mut r, String::new());
    assert(texts(r@) =~= header_lines(dir, db1@, db2@, stamp@));
    r
}

/// The lines of the schema patch (see `schema_patch`), or the data-loss
/// error naming the first table whose recreation would keep no column.
pub fn schema_patch_lines(
    db1: &str,
    db2: &str,
    source: &Vec<TableInfo>,
    target: &Vec<TableInfo>,
    direction: PatchDirection,
    stamp: &str,
) -> (r: Result<Vec<String>, SchemaPatchError>)
    requires
        well_formed(source@),
        well_formed(target@),
    ensures
        match r {
            Ok(ls) => first_data_loss(mutated_of(direction, source@, target@), template_of(direction, source@, target@)) is None
                && texts(ls@) == schema_patch(db1@, db2@, source@, target@, direction, stamp@),
            Err(SchemaPatchError::NoCommonColumns(t)) => first_data_loss(mutated_of(direction, source@, target@), template_of(direction, source@, target@))
                == Some(t@),
        },
{
    let fwd = direction == PatchDirection::SourceToTarget;
    let ts = if fwd { source } else { target };
    let ms = if fwd { target } else { source };
    let side = if fwd { String::from_str("source") } else { String::from_str("target") };
    assert(side@ == template_side(direction));
    assert(ts@ == template_of(direction, source@, target@));
    assert(ms@ == mutated_of(direction, source@, target@));
    let mut any = false;
    let mut i: usize = 0;
    assert(ms@.subrange(0, 0) =~= Seq::<TableInfo>::empty());
    while i < ms.len()
        invariant
            i <= ms@.len(),
            well_formed(ts@),
            ts@ == template_of(direction, source@, target@),
            ms@ == mutated_of(direction, source@, target@),
            first_data_loss(ms@.subrange(0, i as int), ts@) is None,
            any == any_recreation(ms@.subrange(0, i as int), ts@),
        decreases ms@.len() - i,
    {
        assert(ms@.subrange(0, i + 1).drop_last() =~= ms@.subrange(0, i as int));
        assert(ms@.subrange(0, i + 1).last() == ms@[i as int]);
        let m = &ms[i];
        match find_table(ts, &m.name) {
            Some(j) => {
                proof {
                    lemma_table_named(ts@, j as int);
                }
                assert(unique_columns(ts@[j as int].columns@));
                if !tables_are_identical(m, &ts[j]) {
                    if would_lose_data(m, &ts[j]) {
                        assert(has_table(ts@, m.name@));
                        assert(first_data_loss(ms@.subrange(0, i + 1), ts@) == Some(m.name@));
                        proof {
                            lemma_first_loss_sticks(ms@, ts@, i + 1);
                        }
                        return Err(SchemaPatchError::NoCommonColumns(m.name.clone()));
                    }
                    if plan_table(m, &ts[j]) == TablePlan::Recreate {
                        any = true;
                    }
                }
            },
            None => {},
        }
        i = i + 1;
    }
    assert(ms@.subrange(0, i as int) =~= ms@);
    let mut r = header_line_list(direction, db1, db2, stamp);
    if !any {
        push_line(&mut r, String::from_str("BEGIN TRANSACTION;"));
        push_line(&mut r, String::new());
    }
    let ghost start = texts(r@);
    let mut k: usize = 0;
    assert(ts@.subrange(0, 0) =~= Seq::<TableInfo>::empty());
    while k < ts.len()
        invariant
            k <= ts@.len(),
            side@ == template_side(direction),
            texts(r@) == start + create_lines(ts@.subrange(0, k as int), ms@, side@),
        decreases ts@.len() - k,
    {
        assert(ts@.subrange(0, k + 1).drop_last() =~= ts@.subrange(0, k as int));
        assert(ts@.subrange(0, k + 1).last() == ts@[k as int]);
        let t = &ts[k];
        match find_table(ms, &t.name) {
            Some(_) => {},
            None => {
                push_line(&mut r, labelled("-- Create table from ", side.as_str()));
                let mut c = fixed_collations(t.create_sql.as_str());
                c.append(";");
                push_line(&mut r, c);
                push_line(&mut r, String::new());
                assert(texts(r@) =~= start + create_lines(ts@.subrange(0, k + 1), ms@, side@));
            },
        }
        k = k + 1;
    }
    assert(ts@.subrange(0, k as int) =~= ts@);
    let ghost after_creates = texts(r@);
    let mut k: usize = 0;
    while k < ms.len()
        invariant
            k <= ms@.len(),
            side@ == template_side(direction),
            texts(r@) == after_creates + drop_lines(ms@.subrange(0, k as int), ts@, side@),
        decreases ms@.len() - k,
    {
        assert(ms@.subrange(0, k + 1).drop_last() =~= ms@.subrange(0, k as int));
        assert(ms@.subrange(0, k + 1).last() == ms@[k as int]);
        let m = &ms[k];
        match find_table(ts, &m.name) {
            Some(_) => {},
            None => {
                push_line(&mut r, labelled("-- Drop table not in ", side.as_str()));
                let mut d = labelled("DROP TABLE IF EXISTS ", quote_name(m.name.as_str()).as_str());
                d.append(";");
                push_line(&mut r, d);
                push_line(&mut r, String::new());
                assert(texts(r@) =~= after_creates + drop_lines(ms@.subrange(0, k + 1), ts@, side@));
            },
        }
        k = k + 1;
    }
    assert(ms@.subrange(0, k as int) =~= ms@);
    let ghost after_drops = texts(r@);
    let mut k: usize = 0;
    while k < ms.len()
        invariant
            k <= ms@.len(),
            well_formed(ts@),
            side@ == template_side(direction),
            first_data_loss(ms@, ts@) is None,
            texts(r@) == after_drops + section_lines(ms@.subrange(0, k as int), ts@, side@),
        decreases ms@.len() - k,
    {
        assert(ms@.subrange(0, k + 1).drop_last() =~= ms@.subrange(0, k as int));
        assert(ms@.subrange(0, k + 1).last() == ms@[k as int]);
        proof {
            if first_data_loss(ms@.subrange(0, k + 1), ts@) is Some {
                lemma_first_loss_sticks(ms@, ts@, k + 1);
            }
        }
        let m = &ms[k];
        match find_table(ts, &m.name) {
            Some(j) => {
                proof {
                    lemma_table_named(ts@, j as int);
                }
                assert(unique_columns(ts@[j as int].columns@));
                if !tables_are_identical(m, &ts[j]) {
                    match table_section_lines(m, &ts[j], side.as_str()) {
                        Ok(sec) => {
                            extend_lines(&mut r, sec);
                            assert(texts(r@) =~= after_drops + section_lines(
                                ms@.subrange(0, k + 1),
                                ts@,
                                side@,
                            ));
                        },
                        Err(e) => {
                            assert(false);
                            return Err(e);
                        },
                    }
                }
            },
            None => {},
        }
        k = k + 1;
    }
    assert(ms@.subrange(0, k as int) =~= ms@);
    if !any {
        push_line(&mut r, String::from_str("COMMIT;"));
    }
    push_line(&mut r, String::new());
    push_line(&mut r, String::from_str("-- Migration complete"));
    assert(texts(r@) =~= schema_patch(db1@, db2@, source@, target@, direction, stamp@));
    Ok(r)
}


/// Generates the schema patch text for the two schemas in the given
/// direction, stamped with the current time (see `schema_patch`). It fails
/// exactly when some recreation would keep no column.
pub fn generate_schema_patch(
    db1: &str,
    db2: &str,
    source: &Vec<TableInfo>,
    target: &Vec<TableInfo>,
    direction: PatchDirection,
) -> (r: Result<String, SchemaPatchError>)
    requires
        well_formed(source@),
        well_formed(target@),
    ensures
        match r {
            Ok(text) => first_data_loss(mutated_of(direction, source@, target@), template_of(direction, source@, target@)) is None
                && exists|stamp: Seq<char>| text@ == lines_text(schema_patch(db1@, db2@, source@, target@, direction, stamp)),
            Err(SchemaPatchError::NoCommonColumns(t)) => first_data_loss(mutated_of(direction, source@, target@), template_of(direction, source@, target@))
                == Some(t@),
        },
{
    let stamp = utc_now_text();
    match schema_patch_lines(db1, db2, source, target, direction, stamp.as_str()) {
        Ok(ls) => Ok(join_lines(&ls)),
        Err(e) => Err(e),
    }
}

/// What the single-table patch is asked to do with its table.
#[derive(Clone, Copy, Debug, PartialEq, Eq, Structural)]
pub enum TableStatus {
    /// The table is only in the target database.
    Added,
    /// The table is only in the source database.
    Removed,
    /// The table is in both, not identically.
    Modified,
}

impl TableStatus {
    /// Reads `"added"`, `"removed"` or `"modified"`.
    pub fn parse(s: &str) -> (r: Option<TableStatus>)
        ensures
            r == (if s@ == "added"@ {
                Some(TableStatus::Added)
            } else if s@ == "removed"@ {
                Some(TableStatus::Removed)
            } else if s@ == "modified"@ {
                Some(TableStatus::Modified)
            } else {
                None
            }),
    {
        let t = String::from_str(s);
        if t == String::from_str("added") {
            Some(TableStatus::Added)
        } else if t == String::from_str("removed") {
            Some(TableStatus::Removed)
        } else if t == String::from_str("modified") {
            Some(TableStatus::Modified)
        } else {
            None
        }
    }
}

/// Why no single-table patch could be made.
#[derive(Clone, Debug)]
pub enum TablePatchError {
    /// The status is none of `added`, `removed`, `modified`.
    InvalidStatus(String),
    /// The database that should hold the table does not.
    TableNotFound(String),
    /// The table is not in both databases with differences.
    NotModified(String),
    /// Recreating the table would keep none of its columns.
    NoCommonColumns(String),
}

/// The outcome of a single-table patch, as lines or the kind of failure.
pub ghost enum TablePatchOutcome {
    Lines(Seq<Seq<char>>),
    InvalidStatus,
    TableNotFound,
    NotModified,
    NoCommonColumns,
}

pub open spec fn create_table_lines(from: Seq<char>, t: TableInfo) -> Seq<Seq<char>> {
    seq!["-- Create table from "@ + from + " database"@, fix_collations(t.create_sql@) + ";"@]
}

pub open spec fn drop_table_lines(from: Seq<char>, t: Seq<char>) -> Seq<Seq<char>> {
    seq!["-- Drop table from "@ + from + " database"@, "DROP TABLE IF EXISTS "@ + quoted_name(t) + ";"@]
}

/// The body of the patch for table `t` with the given status: create or drop
/// it, or alter or recreate it to match the template.
pub open spec fn table_patch_body(
    t: Seq<char>,
    status: TableStatus,
    source: Seq<TableInfo>,
    target: Seq<TableInfo>,
    dir: PatchDirection,
) -> TablePatchOutcome {
    let fwd = dir == PatchDirection::SourceToTarget;
    match status {
        TableStatus::Added => if !has_table(target, t) {
            TablePatchOutcome::TableNotFound
        } else if fwd {
            TablePatchOutcome::Lines(drop_table_lines("target"@, t))
        } else {
            TablePatchOutcome::Lines(create_table_lines("target"@, table_named(target, t)))
        },
        TableStatus::Removed => if !has_table(source, t) {
            TablePatchOutcome::TableNotFound
        } else if fwd {
            TablePatchOutcome::Lines(create_table_lines("source"@, table_named(source, t)))
        } else {
            TablePatchOutcome::Lines(drop_table_lines("source"@, t))
        },
        TableStatus::Modified => {
            let ts = template_of(dir, source, target);
            let ms = mutated_of(dir, source, target);
            if !has_table(ms, t) || !is_modified(table_named(ms, t), ts) {
                TablePatchOutcome::NotModified
            } else if loses_data(table_named(ms, t), table_named(ts, t)) {
                TablePatchOutcome::NoCommonColumns
            } else {
                TablePatchOutcome::Lines(
                    table_section(table_named(ms, t), table_named(ts, t), template_side(dir)),
                )
            }
        },
    }
}

pub open spec fn table_patch_header(t: Seq<char>, db1: Seq<char>, db2: Seq<char>, dir: PatchDirection, stamp: Seq<char>) -> Seq<Seq<char>> {
    let (d, a) = if dir == PatchDirection::SourceToTarget {
        ("-- Direction: Source -> Target (Forward)"@, "-- Apply to: "@ + db2 + " (Target)"@)
    } else {
        ("-- Direction: Target -> Source (Reverse)"@, "-- Apply to: "@ + db1 + " (Source)"@)
    };
    seq!["-- Single Table Schema Patch: "@ + t, d, a, "-- Generated: "@ + stamp, Seq::empty()]
}

/// The whole single-table patch: header, body, closing comment.
pub open spec fn table_patch(
    t: Seq<char>,
    status: Seq<char>,
    db1: Seq<char>,
    db2: Seq<char>,
    source: Seq<TableInfo>,
    target: Seq<TableInfo>,
    dir: PatchDirection,
    stamp: Seq<char>,
) -> TablePatchOutcome {
    let st = if status == "added"@ {
        Some(TableStatus::Added)
    } else if status == "removed"@ {
        Some(TableStatus::Removed)
    } else if status == "modified"@ {
        Some(TableStatus::Modified)
    } else {
        None
    };
    match st {
        None => TablePatchOutcome::InvalidStatus,
        Some(s) => match table_patch_body(t, s, source, target, dir) {
            TablePatchOutcome::Lines(body) => TablePatchOutcome::Lines(
                table_patch_header(t, db1, db2, dir, stamp) + body + seq![
                    Seq::empty(),
                    "-- Table patch complete"@,
                ],
            ),
            other => other,
        },
    }
}

fn create_table_line_list(from: &str, t: &TableInfo) -> (r: Vec<String>)
    ensures
        texts(r@) == create_table_lines(from@, *t),
{
    let mut r: Vec<String> = Vec::new();
    let mut h = labelled("-- Create table from ", from);
    h.append(" database");
    push_line(&mut r, h);
    let mut c = fixed_collations(t.create_sql.as_str());
    c.append(";");
    push_line(&mut r, c);
    assert(texts(r@) =~= create_table_lines(from@, *t));
    r
}

fn drop_table_line_list(from: &str, t: &str) -> (r: Vec<String>)
    ensures
        texts(r@) == drop_table_lines(from@, t@),
{
    let mut r: Vec<String> = Vec::new();
    let mut h = labelled("-- Drop table from ", from);
    h.append(" database");
    push_line(&mut r, h);
    let mut d = labelled("DROP TABLE IF EXISTS ", quote_name(t).as_str());
    d.append(";");
    push_line(&mut r, d);
    assert(texts(r@) =~= drop_table_lines(from@, t@));
    r
}

/// The lines of the patch for one table, or why there is none (see `table_patch`).
pub fn table_patch_lines(
    table: &str,
    status: &str,
    db1: &str,
    db2: &str,
    source: &Vec<TableInfo>,
    target: &Vec<TableInfo>,
    direction: PatchDirection,
    stamp: &str,
) -> (r: Result<Vec<String>, TablePatchError>)
    requires
        well_formed(source@),
        well_formed(target@),
    ensures
        match r {
            Ok(ls) => table_patch(table@, status@, db1@, db2@, source@, target@, direction, stamp@)
                == TablePatchOutcome::Lines(texts(ls@)),
            Err(TablePatchError::InvalidStatus(s)) => s@ == status@ && table_patch(table@, status@, db1@, db2@, source@, target@, direction, stamp@)
                == TablePatchOutcome::InvalidStatus,
            Err(TablePatchError::TableNotFound(t)) => t@ == table@ && table_patch(table@, status@, db1@, db2@, source@, target@, direction, stamp@)
                == TablePatchOutcome::TableNotFound,
            Err(TablePatchError::NotModified(t)) => t@ == table@ && table_patch(table@, status@, db1@, db2@, source@, target@, direction, stamp@)
                == TablePatchOutcome::NotModified,
            Err(TablePatchError::NoCommonColumns(t)) => t@ == table@ && table_patch(table@, status@, db1@, db2@, source@, target@, direction, stamp@)
                == TablePatchOutcome::NoCommonColumns,
        },
{
    let name = String::from_str(table);
    let st = match TableStatus::parse(status) {
        Some(s) => s,
        None => {
            return Err(TablePatchError::InvalidStatus(String::from_str(status)));
        },
    };
    let fwd = direction == PatchDirection::SourceToTarget;
    let body: Vec<String> = match st {
        TableStatus::Added => match find_table(target, &name) {
            None => {
                return Err(TablePatchError::TableNotFound(name));
            },
            Some(j) => {
                proof {
                    lemma_table_named(target@, j as int);
                }
                if fwd {
                    drop_table_line_list("target", table)
                } else {
                    create_table_line_list("target", &target[j])
                }
            },
        },
        TableStatus::Removed => match find_table(source, &name) {
            None => {
                return Err(TablePatchError::TableNotFound(name));
            },
            Some(j) => {
                proof {
                    lemma_table_named(source@, j as int);
                }
                if fwd {
                    create_table_line_list("source", &source[j])
                } else {
                    drop_table_line_list("source", table)
                }
            },
        },
        TableStatus::Modified => {
            let ts = if fwd { source } else { target };
            let ms = if fwd { target } else { source };
            assert(ts@ == template_of(direction, source@, target@));
            assert(ms@ == mutated_of(direction, source@, target@));
            let side = if fwd { String::from_str("source") } else { String::from_str("target") };
            let (mi, ti) = match (find_table(ms, &name), find_table(ts, &name)) {
                (Some(mi), Some(ti)) => (mi, ti),
                (None, _) => {
                    return Err(TablePatchError::NotModified(name));
                },
                (Some(mi), None) => {
                    proof {
                        lemma_table_named(ms@, mi as int);
                    }
                    return Err(TablePatchError::NotModified(name));
                },
            };
            proof {
                lemma_table_named(ms@, mi as int);
                lemma_table_named(ts@, ti as int);
            }
            assert(unique_columns(ts@[ti as int].columns@));
            if tables_are_identical(&ms[mi], &ts[ti]) {
                return Err(TablePatchError::NotModified(name));
            }
            match table_section_lines(&ms[mi], &ts[ti], side.as_str()) {
                Ok(sec) => sec,
                Err(_) => {
                    return Err(TablePatchError::NoCommonColumns(name));
                },
            }
        },
    };
    let mut r: Vec<String> = Vec::new();
    push_line(&mut r, labelled("-- Single Table Schema Patch: ", table));
    if fwd {
        push_line(&mut r, String::from_str("-- Direction: Source -> Target (Forward)"));
        let mut a = labelled("-- Apply to: ", db2);
        a.append(" (Target)");
        push_line(&mut r, a);
    } else {
        push_line(&mut r, String::from_str("-- Direction: Target -> Source (Reverse)"));
        let mut a = labelled("-- Apply to: ", db1);
        a.append(" (Source)");
        push_line(&mut r, a);
    }
    push_line(&mut r, labelled("-- Generated: ", stamp));
    push_line(&mut r, String::new());
    assert(texts(r@) =~= table_patch_header(table@, db1@, db2@, direction, stamp@));
    extend_lines(&mut r, body);
    push_line(&mut r, String::new());
    push_line(&mut r, String::from_str("-- Table patch complete"));
    assert(texts(r@) =~= table_patch_header(table@, db1@, db2@, direction, stamp@) + texts(body@)
        + seq![Seq::<char>::empty(), "-- Table patch complete"@]);
    Ok(r)
}

/// Generates the patch text for one table with the given status, stamped
/// with the current time (see `table_patch`).
pub fn generate_table_schema_patch(
    table: &str,
    status: &str,
    db1: &str,
    db2: &str,
    source: &Vec<TableInfo>,
    target: &Vec<TableInfo>,
    direction: PatchDirection,
) -> (r: Result<String, TablePatchError>)
    requires
        well_formed(source@),
        well_formed(target@),
    ensures
        match r {
            Ok(text) => exists|stamp: Seq<char>, ls: Seq<Seq<char>>|
                table_patch(table@, status@, db1@, db2@, source@, target@, direction, stamp)
                    == TablePatchOutcome::Lines(ls) && text@ == lines_text(ls),
            Err(TablePatchError::InvalidStatus(s)) => s@ == status@ && status@ != "added"@ && status@ != "removed"@ && status@ != "modified"@,
            Err(TablePatchError::TableNotFound(t)) => t@ == table@ && forall|stamp: Seq<char>|
                table_patch(table@, status@, db1@, db2@, source@, target@, direction, stamp)
                    == TablePatchOutcome::TableNotFound,
            Err(TablePatchError::NotModified(t)) => t@ == table@ && forall|stamp: Seq<char>|
                table_patch(table@, status@, db1@, db2@, source@, target@, direction, stamp)
                    == TablePatchOutcome::NotModified,
            Err(TablePatchError::NoCommonColumns(t)) => t@ == table@ && forall|stamp: Seq<char>|
                table_patch(table@, status@, db1@, db2@, source@, target@, direction, stamp)
                    == TablePatchOutcome::NoCommonColumns,
        },
{
    let stamp = utc_now_text();
    match table_patch_lines(table, status, db1, db2, source, target, direction, stamp.as_str()) {
        Ok(ls) => Ok(join_lines(&ls)),
        Err(e) => Err(e),
    }
}

} // verus!
