//! Laws of the schema differ: every table lands in exactly one bucket, and
//! comparing the other way round mirrors the result.

use vstd::prelude::*;
use crate::model::{ColumnInfo, TableInfo, TableChange, ComparisonView};
use crate::schema_diff::{
    well_formed, has_table, table_named, tables_identical, columns_match, comparison_of, tables_only_in,
    identical_tables, modified_tables, table_change, added_columns, removed_columns, unique_tables,
    lemma_table_named,
};

verus! {

/// The names of a sequence of columns.
pub open spec fn column_names(cs: Seq<ColumnInfo>) -> Seq<Seq<char>> {
    cs.map_values(|c: ColumnInfo| c.name@)
}

/// Some table difference in `ms` is about table `n`.
pub open spec fn mentions(ms: Seq<TableChange>, n: Seq<char>) -> bool {
    exists|k: int| 0 <= k < ms.len() && (#[trigger] ms[k]).table == n
}

/// Some difference in `ys` is about the table of `x`, with the added and
/// removed columns of `x` swapped.
pub open spec fn mirrored(x: TableChange, ys: Seq<TableChange>) -> bool {
    exists|m: int|
        0 <= m < ys.len() && (#[trigger] ys[m]).table == x.table && column_names(x.added)
            == ys[m].removed && x.removed == column_names(ys[m].added)
}

/// In how many of the four buckets of `c` the table `n` stands.
pub open spec fn bucket_count(c: ComparisonView, n: Seq<char>) -> int {
    (if c.added.contains(n) { 1int } else { 0int }) + (if c.removed.contains(n) { 1int } else { 0int })
        + (if c.identical.contains(n) { 1int } else { 0int }) + (if mentions(c.modified, n) { 1int } else { 0int })
}

proof fn lemma_has_table_drop_last(a: Seq<TableInfo>, n: Seq<char>)
    requires
        a.len() > 0,
    ensures
        has_table(a, n) == (has_table(a.drop_last(), n) || a.last().name@ == n),
{
    let a2 = a.drop_last();
    if has_table(a, n) {
        let i = choose|i: int| 0 <= i < a.len() && (#[trigger] a[i]).name@ == n;
        if i < a.len() - 1 {
            assert(a2[i] == a[i]);
        }
    }
    if has_table(a2, n) {
        let i = choose|i: int| 0 <= i < a2.len() && (#[trigger] a2[i]).name@ == n;
        assert(a[i] == a2[i]);
    }
    if a.last().name@ == n {
        assert(a[a.len() - 1] == a.last());
    }
}

proof fn lemma_push_contains<T>(p: Seq<T>, x: T, n: T)
    ensures
        p.push(x).contains(n) == (p.contains(n) || x == n),
{
    if p.contains(n) {
        let i = choose|i: int| 0 <= i < p.len() && p[i] == n;
        assert(p.push(x)[i] == n);
    }
    if x == n {
        assert(p.push(x)[p.len() as int] == n);
    }
    if p.push(x).contains(n) {
        let i = choose|i: int| 0 <= i < p.len() + 1 && p.push(x)[i] == n;
        if i < p.len() {
            assert(p[i] == n);
        }
    }
}

proof fn lemma_only_in(a: Seq<TableInfo>, b: Seq<TableInfo>, n: Seq<char>)
    ensures
        tables_only_in(a, b).contains(n) == (has_table(a, n) && !has_table(b, n)),
    decreases a.len(),
{
    if a.len() == 0 {
    } else {
        lemma_only_in(a.drop_last(), b, n);
        lemma_has_table_drop_last(a, n);
        lemma_push_contains(tables_only_in(a.drop_last(), b), a.last().name@, n);
    }
}

/// The table of `b` that `a[i]` is compared with shares its name, and the
/// pair is identical or not.
spec fn shared_identical(a: Seq<TableInfo>, b: Seq<TableInfo>, n: Seq<char>, same: bool) -> bool {
    exists|i: int|
        0 <= i < a.len() && (#[trigger] a[i]).name@ == n && has_table(b, n) && tables_identical(
            a[i],
            table_named(b, n),
        ) == same
}

proof fn lemma_shared_drop_last(a: Seq<TableInfo>, b: Seq<TableInfo>, n: Seq<char>, same: bool)
    requires
        a.len() > 0,
    ensures
        shared_identical(a, b, n, same) == (shared_identical(a.drop_last(), b, n, same) || (
        a.last().name@ == n && has_table(b, n) && tables_identical(a.last(), table_named(b, n))
            == same)),
{
    let a2 = a.drop_last();
    if shared_identical(a, b, n, same) {
        let i = choose|i: int|
            0 <= i < a.len() && (#[trigger] a[i]).name@ == n && has_table(b, n) && tables_identical(
                a[i],
                table_named(b, n),
            ) == same;
        if i < a.len() - 1 {
            assert(a2[i] == a[i]);
        }
    }
    if shared_identical(a2, b, n, same) {
        let i = choose|i: int|
            0 <= i < a2.len() && (#[trigger] a2[i]).name@ == n && has_table(b, n)
                && tables_identical(a2[i], table_named(b, n)) == same;
        assert(a[i] == a2[i]);
    }
    if a.last().name@ == n && has_table(b, n) && tables_identical(a.last(), table_named(b, n))
        == same {
        assert(a[a.len() - 1] == a.last());
    }
}

proof fn lemma_identical(a: Seq<TableInfo>, b: Seq<TableInfo>, n: Seq<char>)
    ensures
        identical_tables(a, b).contains(n) == shared_identical(a, b, n, true),
    decreases a.len(),
{
    if a.len() > 0 {
        lemma_identical(a.drop_last(), b, n);
        lemma_shared_drop_last(a, b, n, true);
        lemma_push_contains(identical_tables(a.drop_last(), b), a.last().name@, n);
    }
}

proof fn lemma_modified(a: Seq<TableInfo>, b: Seq<TableInfo>, n: Seq<char>)
    ensures
        mentions(modified_tables(a, b), n) == shared_identical(a, b, n, false),
    decreases a.len(),
{
    if a.len() > 0 {
        let a2 = a.drop_last();
        lemma_modified(a2, b, n);
        lemma_shared_drop_last(a, b, n, false);
        let p = modified_tables(a2, b);
        let t = a.last();
        if has_table(b, t.name@) && !tables_identical(t, table_named(b, t.name@)) {
            let q = p.push(table_change(t, table_named(b, t.name@)));
            if mentions(p, n) {
                let k = choose|k: int| 0 <= k < p.len() && (#[trigger] p[k]).table == n;
                assert(q[k] == p[k]);
            }
            if mentions(q, n) {
                let k = choose|k: int| 0 <= k < q.len() && (#[trigger] q[k]).table == n;
                if k < p.len() {
                    assert(q[k] == p[k]);
                }
            }
            if t.name@ == n {
                assert(q[p.len() as int].table == n);
            }
        }
    }
}

proof fn lemma_unique_index(a: Seq<TableInfo>, i: int, j: int)
    requires
        unique_tables(a),
        0 <= i < a.len(),
        0 <= j < a.len(),
        a[i].name@ == a[j].name@,
    ensures
        i == j,
{
}

/// Every table of either schema stands in exactly one of the four buckets
/// of their comparison: added, removed, identical or modified.
pub proof fn lemma_every_table_in_one_bucket(
    db1: Seq<char>,
    db2: Seq<char>,
    a: Seq<TableInfo>,
    b: Seq<TableInfo>,
    n: Seq<char>,
)
    requires
        well_formed(a),
        well_formed(b),
        has_table(a, n) || has_table(b, n),
    ensures
        bucket_count(comparison_of(db1, db2, a, b), n) == 1,
{
    lemma_only_in(a, b, n);
    lemma_only_in(b, a, n);
    lemma_identical(a, b, n);
    lemma_modified(a, b, n);
    if has_table(a, n) && has_table(b, n) {
        let i = choose|i: int| 0 <= i < a.len() && (#[trigger] a[i]).name@ == n;
        if shared_identical(a, b, n, true) && shared_identical(a, b, n, false) {
            let i1 = choose|i: int|
                0 <= i < a.len() && (#[trigger] a[i]).name@ == n && has_table(b, n)
                    && tables_identical(a[i], table_named(b, n)) == true;
            let i2 = choose|i: int|
                0 <= i < a.len() && (#[trigger] a[i]).name@ == n && has_table(b, n)
                    && tables_identical(a[i], table_named(b, n)) == false;
            lemma_unique_index(a, i1, i2);
        }
        if tables_identical(a[i], table_named(b, n)) {
            assert(shared_identical(a, b, n, true));
        } else {
            assert(shared_identical(a, b, n, false));
        }
    }
}

proof fn lemma_identical_symmetric(x: TableInfo, y: TableInfo)
    ensures
        tables_identical(x, y) == tables_identical(y, x),
{
    if tables_identical(x, y) {
        assert forall|i: int| 0 <= i < y.columns@.len() implies columns_match(
            #[trigger] y.columns@[i],
            x.columns@[i],
        ) by {
            assert(columns_match(x.columns@[i], y.columns@[i]));
        }
    }
    if tables_identical(y, x) {
        assert forall|i: int| 0 <= i < x.columns@.len() implies columns_match(
            #[trigger] x.columns@[i],
            y.columns@[i],
        ) by {
            assert(columns_match(y.columns@[i], x.columns@[i]));
        }
    }
}

/// `shared_identical` read from the other side.
proof fn lemma_shared_swap(a: Seq<TableInfo>, b: Seq<TableInfo>, n: Seq<char>, same: bool)
    requires
        well_formed(a),
        well_formed(b),
    ensures
        shared_identical(a, b, n, same) == shared_identical(b, a, n, same),
{
    if shared_identical(a, b, n, same) {
        let i = choose|i: int|
            0 <= i < a.len() && (#[trigger] a[i]).name@ == n && has_table(b, n) && tables_identical(
                a[i],
                table_named(b, n),
            ) == same;
        let j = choose|j: int| 0 <= j < b.len() && (#[trigger] b[j]).name@ == n;
        lemma_table_named(b, j);
        lemma_table_named(a, i);
        lemma_identical_symmetric(a[i], b[j]);
        assert(0 <= j < b.len() && b[j].name@ == n && has_table(a, n) && tables_identical(
            b[j],
            table_named(a, n),
        ) == same);
    }
    if shared_identical(b, a, n, same) {
        let j = choose|j: int|
            0 <= j < b.len() && (#[trigger] b[j]).name@ == n && has_table(a, n) && tables_identical(
                b[j],
                table_named(a, n),
            ) == same;
        let i = choose|i: int| 0 <= i < a.len() && (#[trigger] a[i]).name@ == n;
        lemma_table_named(b, j);
        lemma_table_named(a, i);
        lemma_identical_symmetric(a[i], b[j]);
        assert(0 <= i < a.len() && a[i].name@ == n && has_table(b, n) && tables_identical(
            a[i],
            table_named(b, n),
        ) == same);
    }
}

proof fn lemma_added_is_removed(c1: Seq<ColumnInfo>, c2: Seq<ColumnInfo>)
    ensures
        column_names(added_columns(c1, c2)) == removed_columns(c2, c1),
    decreases c2.len(),
{
    if c2.len() > 0 {
        lemma_added_is_removed(c1, c2.drop_last());
        let p = added_columns(c1, c2.drop_last());
        assert(column_names(p.push(c2.last())) =~= column_names(p).push(c2.last().name@));
    }
}

/// Each entry of `modified_tables(a, b)` is the difference of a table of `a`
/// with its namesake in `b`.
proof fn lemma_modified_entry(a: Seq<TableInfo>, b: Seq<TableInfo>, k: int)
    requires
        0 <= k < modified_tables(a, b).len(),
    ensures
        exists|i: int|
            0 <= i < a.len() && has_table(b, (#[trigger] a[i]).name@) && modified_tables(a, b)[k]
                == table_change(a[i], table_named(b, a[i].name@)),
    decreases a.len(),
{
    let a2 = a.drop_last();
    let p = modified_tables(a2, b);
    if k < p.len() {
        lemma_modified_entry(a2, b, k);
        let i = choose|i: int|
            0 <= i < a2.len() && has_table(b, (#[trigger] a2[i]).name@) && p[k] == table_change(
                a2[i],
                table_named(b, a2[i].name@),
            );
        assert(a[i] == a2[i]);
        assert(modified_tables(a, b)[k] == p[k]);
    } else {
        assert(a[a.len() - 1] == a.last());
    }
}

/// Comparing the schemas the other way round mirrors the comparison: added
/// and removed tables swap, the identical and modified tables are the same,
/// and for each modified table the added and removed columns swap.
pub proof fn lemma_comparison_mirror(db1: Seq<char>, db2: Seq<char>, a: Seq<TableInfo>, b: Seq<TableInfo>)
    requires
        well_formed(a),
        well_formed(b),
    ensures
        comparison_of(db1, db2, a, b).added == comparison_of(db2, db1, b, a).removed,
        comparison_of(db1, db2, a, b).removed == comparison_of(db2, db1, b, a).added,
        forall|n: Seq<char>|
            comparison_of(db1, db2, a, b).identical.contains(n) == #[trigger] comparison_of(
                db2,
                db1,
                b,
                a,
            ).identical.contains(n),
        forall|n: Seq<char>|
            mentions(comparison_of(db1, db2, a, b).modified, n) == #[trigger] mentions(
                comparison_of(db2, db1, b, a).modified,
                n,
            ),
        forall|k: int|
            0 <= k < comparison_of(db1, db2, a, b).modified.len() ==> mirrored(
                #[trigger] comparison_of(db1, db2, a, b).modified[k],
                comparison_of(db2, db1, b, a).modified,
            ),
{
    assert forall|n: Seq<char>|
        comparison_of(db1, db2, a, b).identical.contains(n) == #[trigger] comparison_of(
            db2,
            db1,
            b,
            a,
        ).identical.contains(n) by {
        lemma_identical(a, b, n);
        lemma_identical(b, a, n);
        lemma_shared_swap(a, b, n, true);
    }
    assert forall|n: Seq<char>|
        mentions(comparison_of(db1, db2, a, b).modified, n) == #[trigger] mentions(
            comparison_of(db2, db1, b, a).modified,
            n,
        ) by {
        lemma_modified(a, b, n);
        lemma_modified(b, a, n);
        lemma_shared_swap(a, b, n, false);
    }
    assert forall|k: int| 0 <= k < comparison_of(db1, db2, a, b).modified.len() implies mirrored(
        #[trigger] comparison_of(db1, db2, a, b).modified[k],
        comparison_of(db2, db1, b, a).modified,
    ) by {
        let x = modified_tables(a, b)[k];
        lemma_modified_entry(a, b, k);
        let i = choose|i: int|
            0 <= i < a.len() && has_table(b, (#[trigger] a[i]).name@) && x == table_change(
                a[i],
                table_named(b, a[i].name@),
            );
        let n = a[i].name@;
        let j = choose|j: int| 0 <= j < b.len() && (#[trigger] b[j]).name@ == n;
        lemma_table_named(b, j);
        lemma_table_named(a, i);
        lemma_identical_symmetric(a[i], b[j]);
        assert(mentions(modified_tables(a, b), n)) by {
            assert(x.table == n);
        }
        lemma_modified(a, b, n);
        lemma_modified(b, a, n);
        lemma_shared_swap(a, b, n, false);
        let ys = modified_tables(b, a);
        let m = choose|m: int| 0 <= m < ys.len() && (#[trigger] ys[m]).table == n;
        lemma_modified_entry(b, a, m);
        let j2 = choose|j2: int|
            0 <= j2 < b.len() && has_table(a, (#[trigger] b[j2]).name@) && ys[m] == table_change(
                b[j2],
                table_named(a, b[j2].name@),
            );
        lemma_unique_index(b, j, j2);
        lemma_added_is_removed(a[i].columns@, b[j].columns@);
        lemma_added_is_removed(b[j].columns@, a[i].columns@);
        assert(ys[m].table == x.table && column_names(x.added) == ys[m].removed && x.removed
            == column_names(ys[m].added));
    }
}

} // verus!
