//! Laws of the schema patch: what running it does to the mutated schema.

use vstd::prelude::*;
use crate::model::{ColumnInfo, TableInfo};
use crate::schema_diff::{
    has_column, column_named, unique_columns, has_table, table_named, well_formed, tables_identical,
    columns_match, changes_of, same_type, added_columns, removed_columns, table_change,
    lemma_column_named, lemma_table_named,
};
use crate::schema_diff::modified_columns;
use crate::schema_patch::{
    TablePlan, plan_of, is_modified, template_of, mutated_of, PatchDirection, common_columns, loses_data,
    table_section, column_list, old_name,
};
use crate::sql_text::quoted_name;

verus! {

/// Each column of `a` has a column of `b` with the same name, type (up to
/// case), nullability and primary-key flag.
pub open spec fn covers(a: Seq<ColumnInfo>, b: Seq<ColumnInfo>) -> bool {
    forall|i: int| 0 <= i < a.len() ==> has_match(#[trigger] a[i], b)
}

/// Some column of `b` agrees with `x` in name, type (up to case),
/// nullability and primary-key flag.
pub open spec fn has_match(x: ColumnInfo, b: Seq<ColumnInfo>) -> bool {
    exists|j: int| 0 <= j < b.len() && columns_match(x, #[trigger] b[j])
}

/// Two column lists hold the same columns, in any order.
pub open spec fn same_columns(a: Seq<ColumnInfo>, b: Seq<ColumnInfo>) -> bool {
    covers(a, b) && covers(b, a)
}

/// The columns that table `n` has once the patch has run on the mutated
/// schema `ms` with template `ts`, or none where it no longer exists. A
/// table only in `ms` is dropped; one only in `ts` is created from the
/// template's text, which declares the template's columns; a modified table
/// gets the template's columns appended, or is recreated from the
/// template's text, as its plan says; any other table is left alone.
pub open spec fn columns_after_patch(ms: Seq<TableInfo>, ts: Seq<TableInfo>, n: Seq<char>) -> Option<Seq<ColumnInfo>> {
    if !has_table(ts, n) {
        None
    } else if !has_table(ms, n) {
        Some(table_named(ts, n).columns@)
    } else {
        let m = table_named(ms, n);
        let t = table_named(ts, n);
        if !is_modified(m, ts) {
            Some(m.columns@)
        } else {
            match plan_of(m, t) {
                TablePlan::Unchanged => Some(m.columns@),
                TablePlan::AddColumns => Some(m.columns@ + table_change(m, t).added),
                TablePlan::Recreate => Some(t.columns@),
            }
        }
    }
}

proof fn lemma_match_symmetric(a: ColumnInfo, b: ColumnInfo)
    ensures
        columns_match(a, b) == columns_match(b, a),
{
}

proof fn lemma_covers_self(a: Seq<ColumnInfo>)
    ensures
        covers(a, a),
{
    assert forall|i: int| 0 <= i < a.len() implies has_match(#[trigger] a[i], a) by {
        assert(columns_match(a[i], a[i]));
    }
}

/// Without removed columns, every column of `m` is in `t`.
proof fn lemma_no_removed(m: Seq<ColumnInfo>, t: Seq<ColumnInfo>, i: int)
    requires
        removed_columns(m, t).len() == 0,
        0 <= i < m.len(),
    ensures
        has_column(t, m[i].name@),
    decreases m.len(),
{
    let p = removed_columns(m.drop_last(), t);
    if p.len() > 0 || !has_column(t, m.last().name@) {
        assert(removed_columns(m, t).len() > 0);
    }
    if i < m.len() - 1 {
        lemma_no_removed(m.drop_last(), t, i);
        assert(m.drop_last()[i] == m[i]);
    }
}

/// Without modified columns, a column of `m` that `t` has agrees with it.
proof fn lemma_no_modified(m: Seq<ColumnInfo>, t: Seq<ColumnInfo>, i: int)
    requires
        modified_columns(m, t).len() == 0,
        0 <= i < m.len(),
        has_column(t, m[i].name@),
    ensures
        changes_of(m[i], column_named(t, m[i].name@)).len() == 0,
    decreases m.len(),
{
    let p = modified_columns(m.drop_last(), t);
    let a = m.last();
    if p.len() > 0 || (has_column(t, a.name@) && changes_of(a, column_named(t, a.name@)).len() > 0) {
        assert(modified_columns(m, t).len() > 0);
    }
    if i < m.len() - 1 {
        lemma_no_modified(m.drop_last(), t, i);
        assert(m.drop_last()[i] == m[i]);
    }
}

proof fn lemma_no_changes(a: ColumnInfo, b: ColumnInfo)
    requires
        changes_of(a, b).len() == 0,
        a.name@ == b.name@,
    ensures
        columns_match(a, b),
{
    if !same_type(a.data_type@, b.data_type@) {
        assert(changes_of(a, b).len() > 0);
    }
    if a.is_nullable != b.is_nullable {
        assert(changes_of(a, b).len() > 0);
    }
    if a.is_primary_key != b.is_primary_key {
        assert(changes_of(a, b).len() > 0);
    }
}

/// Each added column is a column of `t`.
proof fn lemma_added_from(m: Seq<ColumnInfo>, t: Seq<ColumnInfo>, k: int)
    requires
        0 <= k < added_columns(m, t).len(),
    ensures
        exists|j: int| 0 <= j < t.len() && t[j] == added_columns(m, t)[k],
    decreases t.len(),
{
    let p = added_columns(m, t.drop_last());
    if k < p.len() {
        lemma_added_from(m, t.drop_last(), k);
        let j = choose|j: int| 0 <= j < t.drop_last().len() && t.drop_last()[j] == p[k];
        assert(t[j] == t.drop_last()[j]);
    } else {
        assert(t[t.len() - 1] == t.last());
    }
}

/// Each column of `t` that `m` lacks is added.
proof fn lemma_added_to(m: Seq<ColumnInfo>, t: Seq<ColumnInfo>, j: int)
    requires
        0 <= j < t.len(),
        !has_column(m, t[j].name@),
    ensures
        exists|k: int| 0 <= k < added_columns(m, t).len() && added_columns(m, t)[k] == t[j],
    decreases t.len(),
{
    let p = added_columns(m, t.drop_last());
    if j < t.len() - 1 {
        lemma_added_to(m, t.drop_last(), j);
        assert(t.drop_last()[j] == t[j]);
        let k = choose|k: int| 0 <= k < p.len() && p[k] == t.drop_last()[j];
        assert(added_columns(m, t)[k] == p[k]);
    } else {
        assert(added_columns(m, t)[p.len() as int] == t[j]);
    }
}

/// A table whose columns have no removed or modified ones, extended by the
/// added columns, holds the template's columns.
proof fn lemma_extended_same(m: Seq<ColumnInfo>, t: Seq<ColumnInfo>)
    requires
        unique_columns(t),
        removed_columns(m, t).len() == 0,
        modified_columns(m, t).len() == 0,
    ensures
        same_columns(m + added_columns(m, t), t),
{
    let add = added_columns(m, t);
    let a = m + add;
    assert forall|i: int| 0 <= i < a.len() implies has_match(#[trigger] a[i], t) by {
        if i < m.len() {
            assert(a[i] == m[i]);
            lemma_no_removed(m, t, i);
            lemma_no_modified(m, t, i);
            let j = choose|j: int| 0 <= j < t.len() && (#[trigger] t[j]).name@ == m[i].name@;
            lemma_column_named(t, j);
            lemma_no_changes(m[i], t[j]);
        } else {
            assert(a[i] == add[i - m.len()]);
            lemma_added_from(m, t, i - m.len());
            let j = choose|j: int| 0 <= j < t.len() && t[j] == add[i - m.len()];
            assert(columns_match(t[j], t[j]));
        }
    }
    assert forall|j: int| 0 <= j < t.len() implies has_match(#[trigger] t[j], a) by {
        if has_column(m, t[j].name@) {
            let i = choose|i: int| 0 <= i < m.len() && (#[trigger] m[i]).name@ == t[j].name@;
            lemma_no_modified(m, t, i);
            lemma_column_named(t, j);
            lemma_no_changes(m[i], t[j]);
            lemma_match_symmetric(m[i], t[j]);
            assert(a[i] == m[i]);
        } else {
            lemma_added_to(m, t, j);
            let k = choose|k: int| 0 <= k < add.len() && add[k] == t[j];
            assert(a[m.len() + k] == t[j]);
            assert(columns_match(t[j], a[m.len() + k]));
        }
    }
}

proof fn lemma_identical_same(m: TableInfo, t: TableInfo)
    requires
        tables_identical(m, t),
    ensures
        same_columns(m.columns@, t.columns@),
{
    let a = m.columns@;
    let b = t.columns@;
    assert forall|i: int| 0 <= i < a.len() implies has_match(#[trigger] a[i], b) by {
        assert(columns_match(a[i], b[i]));
    }
    assert forall|j: int| 0 <= j < b.len() implies has_match(#[trigger] b[j], a) by {
        assert(columns_match(a[j], b[j]));
        lemma_match_symmetric(a[j], b[j]);
    }
}

/// Running the schema patch on the mutated database leaves it with exactly
/// the template's tables, each holding the template's columns (names,
/// types up to case, nullability, primary-key flags), in any order.
pub proof fn lemma_schema_patch_round_trip(
    dir: PatchDirection,
    source: Seq<TableInfo>,
    target: Seq<TableInfo>,
    n: Seq<char>,
)
    requires
        well_formed(source),
        well_formed(target),
    ensures
        columns_after_patch(mutated_of(dir, source, target), template_of(dir, source, target), n) is Some
            == has_table(template_of(dir, source, target), n),
        has_table(template_of(dir, source, target), n) ==> same_columns(
            columns_after_patch(mutated_of(dir, source, target), template_of(dir, source, target), n)->0,
            table_named(template_of(dir, source, target), n).columns@,
        ),
{
    let ms = mutated_of(dir, source, target);
    let ts = template_of(dir, source, target);
    if has_table(ts, n) {
        let j = choose|j: int| 0 <= j < ts.len() && (#[trigger] ts[j]).name@ == n;
        lemma_table_named(ts, j);
        let t = ts[j];
        assert(unique_columns(t.columns@));
        if !has_table(ms, n) {
            lemma_covers_self(t.columns@);
        } else {
            let i = choose|i: int| 0 <= i < ms.len() && (#[trigger] ms[i]).name@ == n;
            lemma_table_named(ms, i);
            let m = ms[i];
            if !is_modified(m, ts) {
                lemma_identical_same(m, t);
            } else {
                let ch = table_change(m, t);
                match plan_of(m, t) {
                    TablePlan::Recreate => {
                        lemma_covers_self(t.columns@);
                    },
                    TablePlan::AddColumns => {
                        lemma_extended_same(m.columns@, t.columns@);
                    },
                    TablePlan::Unchanged => {
                        lemma_extended_same(m.columns@, t.columns@);
                        assert(m.columns@ + ch.added =~= m.columns@);
                    },
                }
            }
        }
    }
}


proof fn lemma_common_in_both(tt: Seq<ColumnInfo>, mt: Seq<ColumnInfo>, k: int)
    requires
        0 <= k < common_columns(tt, mt).len(),
    ensures
        has_column(tt, common_columns(tt, mt)[k]),
        has_column(mt, common_columns(tt, mt)[k]),
    decreases tt.len(),
{
    let p = common_columns(tt.drop_last(), mt);
    if k < p.len() {
        lemma_common_in_both(tt.drop_last(), mt, k);
        let j = choose|j: int| 0 <= j < tt.drop_last().len() && (#[trigger] tt.drop_last()[j]).name@ == p[k];
        assert(tt[j] == tt.drop_last()[j]);
    } else {
        assert(tt[tt.len() - 1] == tt.last());
    }
}

/// A recreation copies with one statement that selects every row of the
/// old table, without a filter, over one list of columns on both sides: the
/// template's columns, in its order, that the old table also has. The list
/// is never empty, and each name in it is a column of both tables.
pub proof fn lemma_recreation_copies_every_row(mt: TableInfo, tt: TableInfo, side: Seq<char>)
    requires
        plan_of(mt, tt) == TablePlan::Recreate,
        !loses_data(mt, tt),
    ensures
        ({
            let sec = table_section(mt, tt, side);
            let list = column_list(common_columns(tt.columns@, mt.columns@));
            &&& sec[9] == "INSERT INTO "@ + quoted_name(mt.name@) + " ("@ + list + ")"@
            &&& sec[10] == "SELECT "@ + list
            &&& sec[11] == "FROM "@ + old_name(mt.name@) + ";"@
        }),
        common_columns(tt.columns@, mt.columns@).len() > 0,
        forall|k: int|
            0 <= k < common_columns(tt.columns@, mt.columns@).len() ==> has_column(
                tt.columns@,
                #[trigger] common_columns(tt.columns@, mt.columns@)[k],
            ) && has_column(mt.columns@, common_columns(tt.columns@, mt.columns@)[k]),
{
    assert forall|k: int| 0 <= k < common_columns(tt.columns@, mt.columns@).len() implies has_column(
        tt.columns@,
        #[trigger] common_columns(tt.columns@, mt.columns@)[k],
    ) && has_column(mt.columns@, common_columns(tt.columns@, mt.columns@)[k]) by {
        lemma_common_in_both(tt.columns@, mt.columns@, k);
    }
}

} // verus!
