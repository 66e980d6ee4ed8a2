//! The scale-safe approximate comparator: counts taken by anti-join queries
//! on one connection with the second database attached, never materializing
//! rows.

use vstd::prelude::*;
use vstd::string::*;
use crate::literal::quoted_text;
use crate::model::DataComparisonResult;

verus! {

/// The statements the comparator runs, in order: attach the second
/// database, count both tables, count the keys found on one side only,
/// detach.
#[derive(Clone, Debug)]
pub struct FastCompareQueries {
    pub attach: String,
    pub count_first: String,
    pub count_second: String,
    pub only_in_first: String,
    pub only_in_second: String,
    pub detach: String,
}

/// The name under which the second database is attached.
pub open spec fn attached() -> Seq<char> {
    "db2"@
}

pub open spec fn anti_join(outer: Seq<char>, outer_alias: Seq<char>, inner: Seq<char>, inner_alias: Seq<char>, key: Seq<char>) -> Seq<char> {
    "SELECT COUNT(*) FROM "@ + outer + " "@ + outer_alias + " WHERE NOT EXISTS (SELECT 1 FROM "@ + inner
        + " "@ + inner_alias + " WHERE "@ + inner_alias + "."@ + key + " = "@ + outer_alias + "."@ + key
        + ")"@
}

fn anti_join_query(outer: &str, outer_alias: &str, inner: &str, inner_alias: &str, key: &str) -> (r: String)
    ensures
        r@ == anti_join(outer@, outer_alias@, inner@, inner_alias@, key@),
{
    let mut s = String::from_str("SELECT COUNT(*) FROM ");
    s.append(outer);
    s.append(" ");
    s.append(outer_alias);
    s.append(" WHERE NOT EXISTS (SELECT 1 FROM ");
    s.append(inner);
    s.append(" ");
    s.append(inner_alias);
    s.append(" WHERE ");
    s.append(inner_alias);
    s.append(".");
    s.append(key);
    s.append(" = ");
    s.append(outer_alias);
    s.append(".");
    s.append(key);
    s.append(")");
    s
}

/// The comparator's statements for `table` keyed by `key`, the database at
/// `second_path` attached to the first one's connection.
pub fn fast_compare_queries(second_path: &str, table: &str, key: &str) -> (r: FastCompareQueries)
    ensures
        r.attach@ == "ATTACH DATABASE "@ + quoted_text(second_path@) + " AS "@ + attached(),
        r.count_first@ == "SELECT COUNT(*) FROM "@ + table@,
        r.count_second@ == "SELECT COUNT(*) FROM "@ + attached() + "."@ + table@,
        r.only_in_first@ == anti_join(table@, "t1"@, attached() + "."@ + table@, "t2"@, key@),
        r.only_in_second@ == anti_join(attached() + "."@ + table@, "t2"@, table@, "t1"@, key@),
        r.detach@ == "DETACH DATABASE "@ + attached(),
{
    let mut attach = String::from_str("ATTACH DATABASE ");
    attach.append(crate::literal::sql_literal(&crate::literal::SqlValue::Other(String::from_str(second_path))).as_str());
    attach.append(" AS db2");
    let mut count_first = String::from_str("SELECT COUNT(*) FROM ");
    count_first.append(table);
    let mut second = String::from_str("db2.");
    second.append(table);
    let mut count_second = String::from_str("SELECT COUNT(*) FROM ");
    count_second.append(second.as_str());
    proof {
        reveal_strlit("db2.");
        reveal_strlit("db2");
        reveal_strlit(".");
        reveal_strlit("SELECT COUNT(*) FROM ");
        reveal_strlit(" AS db2");
        reveal_strlit(" AS ");
        reveal_strlit("DETACH DATABASE db2");
        reveal_strlit("DETACH DATABASE ");
    }
    assert(count_second@ =~= "SELECT COUNT(*) FROM "@ + attached() + "."@ + table@);
    assert(attach@ =~= "ATTACH DATABASE "@ + quoted_text(second_path@) + " AS "@ + attached());
    let only_in_first = anti_join_query(table, "t1", second.as_str(), "t2", key);
    let only_in_second = anti_join_query(second.as_str(), "t2", table, "t1", key);
    assert(second@ =~= attached() + "."@ + table@);
    let detach = String::from_str("DETACH DATABASE db2");
    assert(detach@ =~= "DETACH DATABASE "@ + attached());
    FastCompareQueries { attach, count_first, count_second, only_in_first, only_in_second, detach }
}

impl DataComparisonResult {
    /// The aggregate result from the four counts: rows in each table, rows
    /// whose key is only in the first (deleted) and only in the second
    /// (inserted). Rows possibly modified is an upper bound, the smaller of
    /// the two sides' shared counts; the table is identical when both counts
    /// agree and no key is on one side only.
    pub fn from_counts(table: &str, count_first: i64, count_second: i64, only_in_first: i64, only_in_second: i64) -> (r: DataComparisonResult)
        requires
            count_first >= 0,
            count_second >= 0,
            only_in_first >= 0,
            only_in_second >= 0,
        ensures
            r.table_name@ == table@,
            r.total_rows_db1 == count_first,
            r.total_rows_db2 == count_second,
            r.rows_deleted == only_in_first,
            r.rows_inserted == only_in_second,
            r.rows_potentially_modified == (if count_first - only_in_first <= count_second - only_in_second {
                count_first - only_in_first
            } else {
                count_second - only_in_second
            }),
            r.identical == (count_first == count_second && only_in_first == 0 && only_in_second == 0),
    {
        let a = count_first - only_in_first;
        let b = count_second - only_in_second;
        DataComparisonResult {
            table_name: String::from_str(table),
            total_rows_db1: count_first,
            total_rows_db2: count_second,
            rows_inserted: only_in_second,
            rows_deleted: only_in_first,
            rows_potentially_modified: if a <= b { a } else { b },
            identical: count_first == count_second && only_in_second == 0 && only_in_first == 0,
        }
    }
}

} // verus!
