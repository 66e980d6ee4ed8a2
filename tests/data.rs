use plandbdiff::data_patch::{
    data_patch_lines, generate_data_patch, patch_envelope, table_data_patch_lines, DataPatchError, Field,
    PatchType, Row, RowPair, TableRowDiff,
};
use plandbdiff::fast_compare::fast_compare_queries;
use plandbdiff::literal::{sql_literal, SqlValue};
use plandbdiff::model::DataComparisonResult;
use plandbdiff::schema_patch::PatchDirection;

fn row(fields: Vec<(&str, SqlValue)>) -> Row {
    Row {
        fields: fields
            .into_iter()
            .map(|(n, v)| Field { name: n.to_string(), value: v })
            .collect(),
    }
}

fn num(n: i64) -> SqlValue {
    SqlValue::Number(n.to_string())
}

fn text(s: &str) -> SqlValue {
    SqlValue::Text(s.to_string())
}

fn diff(missing: Vec<Row>, extra: Vec<Row>, different: Vec<RowPair>) -> TableRowDiff {
    TableRowDiff {
        table_name: "t".to_string(),
        key_column: "id".to_string(),
        missing_in_target: missing,
        extra_in_target: extra,
        different_rows: different,
        common_columns: vec!["id".to_string(), "name".to_string()],
    }
}

fn lines(d: &TableRowDiff, dir: PatchDirection, ty: PatchType) -> Vec<String> {
    table_data_patch_lines(d, dir, ty).ok().expect("lines")
}

#[test]
fn reverse_missing_row_becomes_delete() {
    let d = diff(vec![row(vec![("id", num(1)), ("name", text("a"))])], vec![], vec![]);
    let ls = lines(&d, PatchDirection::TargetToSource, PatchType::All);
    assert_eq!(
        ls,
        vec![
            "-- DELETE 1 extra rows from t (exist in source only)".to_string(),
            "DELETE FROM t WHERE id = 1;".to_string(),
            String::new(),
        ]
    );
    assert!(!ls.iter().any(|l| l.starts_with("INSERT")));
}

#[test]
fn forward_missing_row_becomes_insert() {
    let d = diff(vec![row(vec![("id", num(1)), ("name", text("O'Brien"))])], vec![], vec![]);
    let ls = lines(&d, PatchDirection::SourceToTarget, PatchType::All);
    assert_eq!(ls[0], "-- INSERT 1 missing rows into t");
    assert_eq!(ls[1], "INSERT INTO t (id, name) VALUES (1, 'O''Brien');");
}

#[test]
fn extra_rows_swap_with_direction() {
    let d = diff(vec![], vec![row(vec![("id", num(7))])], vec![]);
    let fwd = lines(&d, PatchDirection::SourceToTarget, PatchType::All);
    assert_eq!(fwd[1], "DELETE FROM t WHERE id = 7;");
    let rev = lines(&d, PatchDirection::TargetToSource, PatchType::All);
    assert_eq!(rev[0], "-- INSERT 1 missing rows into t (exist in target only)");
    assert_eq!(rev[1], "INSERT INTO t (id, name) VALUES (7, NULL);");
}

#[test]
fn different_rows_update_from_template_side() {
    let pair = RowPair {
        source_row: row(vec![("id", num(3)), ("name", text("src"))]),
        target_row: row(vec![("id", num(3)), ("name", text("tgt"))]),
        different_columns: vec!["name".to_string()],
    };
    let d = diff(vec![], vec![], vec![pair]);
    let fwd = lines(&d, PatchDirection::SourceToTarget, PatchType::All);
    assert_eq!(fwd, vec![
        "-- UPDATE 1 different rows in t".to_string(),
        "UPDATE t SET name = 'src' WHERE id = 3;".to_string(),
        String::new(),
    ]);
    let rev = lines(&d, PatchDirection::TargetToSource, PatchType::All);
    assert_eq!(rev[1], "UPDATE t SET name = 'tgt' WHERE id = 3;");
}

#[test]
fn patch_type_filters_buckets() {
    let pair = RowPair {
        source_row: row(vec![("id", num(3)), ("name", text("x"))]),
        target_row: row(vec![("id", num(3)), ("name", text("y"))]),
        different_columns: vec!["name".to_string()],
    };
    let d = diff(vec![row(vec![("id", num(1))])], vec![row(vec![("id", num(2))])], vec![pair]);
    let only_missing = lines(&d, PatchDirection::SourceToTarget, PatchType::MissingOnly);
    assert!(only_missing.iter().all(|l| !l.starts_with("DELETE") && !l.starts_with("UPDATE")));
    let only_extra = lines(&d, PatchDirection::SourceToTarget, PatchType::ExtraOnly);
    assert_eq!(only_extra[1], "DELETE FROM t WHERE id = 2;");
    assert_eq!(only_extra.len(), 3);
    let only_diff = lines(&d, PatchDirection::SourceToTarget, PatchType::DifferentOnly);
    assert_eq!(only_diff[1], "UPDATE t SET name = 'x' WHERE id = 3;");
    assert_eq!(PatchType::parse("extra"), Some(PatchType::ExtraOnly));
    assert_eq!(PatchType::parse("bogus"), None);
}

#[test]
fn missing_key_value_fails_fast() {
    let d = diff(vec![row(vec![("name", text("a"))])], vec![], vec![]);
    match table_data_patch_lines(&d, PatchDirection::TargetToSource, PatchType::All) {
        Err(DataPatchError::MissingKeyValue(t, k)) => {
            assert_eq!(t, "t");
            assert_eq!(k, "id");
        }
        Ok(_) => panic!("expected a missing key"),
    }
}

#[test]
fn table_without_common_columns_is_skipped() {
    let mut d = diff(vec![row(vec![("id", num(1))])], vec![], vec![]);
    d.common_columns.clear();
    assert!(lines(&d, PatchDirection::SourceToTarget, PatchType::All).is_empty());
}

#[test]
fn whole_data_patch_has_header_and_commit() {
    let d = diff(vec![row(vec![("id", num(1)), ("name", SqlValue::Null)])], vec![], vec![]);
    let ls = data_patch_lines("a.db", "b.db", &vec![d.clone()], PatchDirection::SourceToTarget, PatchType::All, "T")
        .ok()
        .unwrap();
    assert_eq!(ls[0], "-- Data Synchronization Patch");
    assert_eq!(ls[1], "-- Direction: Source -> Target (Forward)");
    assert_eq!(ls[2], "-- Apply to: b.db (Target)");
    assert_eq!(ls[3], "-- Generated: T UTC");
    assert_eq!(ls[5], "BEGIN TRANSACTION;");
    assert_eq!(ls[8], "INSERT INTO t (id, name) VALUES (1, NULL);");
    assert_eq!(ls.last().unwrap(), "COMMIT;");
    let text = generate_data_patch("a.db", "b.db", &vec![d], PatchDirection::SourceToTarget, PatchType::All)
        .ok()
        .unwrap();
    assert!(text.ends_with("COMMIT;\n"));
}

#[test]
fn literals_follow_the_encoding_rules() {
    assert_eq!(sql_literal(&SqlValue::Null), "NULL");
    assert_eq!(sql_literal(&SqlValue::Bool(true)), "1");
    assert_eq!(sql_literal(&SqlValue::Bool(false)), "0");
    assert_eq!(sql_literal(&num(-42)), "-42");
    assert_eq!(sql_literal(&text("it's")), "'it''s'");
    assert_eq!(sql_literal(&text("a\nb")), "CAST(x'610a62' AS TEXT)");
    assert_eq!(sql_literal(&text("\r\t")), "CAST(x'0d09' AS TEXT)");
    assert_eq!(sql_literal(&text("é\n")), "CAST(x'c3a90a' AS TEXT)");
    assert_eq!(sql_literal(&SqlValue::Other("[\"x'\"]".to_string())), "'[\"x''\"]'");
    assert_eq!(sql_literal(&text("-- not a comment")), "'-- not a comment'");
}

#[test]
fn hex_literal_decodes_to_original_bytes() {
    let original = "line one\r\nline\ttwo 'q'";
    let lit = sql_literal(&text(original));
    let hex = lit.strip_prefix("CAST(x'").unwrap().strip_suffix("' AS TEXT)").unwrap();
    let bytes: Vec<u8> = (0..hex.len() / 2)
        .map(|i| u8::from_str_radix(&hex[2 * i..2 * i + 2], 16).unwrap())
        .collect();
    assert_eq!(bytes, original.as_bytes());
}

#[test]
fn envelope_marks_truncation_and_size() {
    let small = patch_envelope("p.sql".to_string(), 100, "head".to_string());
    assert_eq!(small.preview, "head");
    assert!(!small.is_large);
    let big = patch_envelope("p.sql".to_string(), 6 * 1024 * 1024, "head".to_string());
    assert_eq!(big.preview, "head\n\n... (remaining content truncated for preview) ...");
    assert!(big.is_large);
    let edge = patch_envelope("p.sql".to_string(), 5120, "h".to_string());
    assert_eq!(edge.preview, "h");
    assert!(!patch_envelope("p".to_string(), 5 * 1024 * 1024, String::new()).is_large);
}

#[test]
fn fast_comparison_counts() {
    let r = DataComparisonResult::from_counts("t", 10, 12, 1, 3);
    assert_eq!(r.rows_potentially_modified, 9);
    assert!(!r.identical);
    let same = DataComparisonResult::from_counts("t", 5, 5, 0, 0);
    assert!(same.identical);
    assert_eq!(same.rows_potentially_modified, 5);
    let q = fast_compare_queries("/tmp/o'b.db", "t", "id");
    assert_eq!(q.attach, "ATTACH DATABASE '/tmp/o''b.db' AS db2");
    assert_eq!(q.count_second, "SELECT COUNT(*) FROM db2.t");
    assert_eq!(
        q.only_in_first,
        "SELECT COUNT(*) FROM t t1 WHERE NOT EXISTS (SELECT 1 FROM db2.t t2 WHERE t2.id = t1.id)"
    );
    assert_eq!(
        q.only_in_second,
        "SELECT COUNT(*) FROM db2.t t2 WHERE NOT EXISTS (SELECT 1 FROM t t1 WHERE t1.id = t2.id)"
    );
    assert_eq!(q.detach, "DETACH DATABASE db2");
}

#[test]
fn literal_edge_cases() {
    assert_eq!(sql_literal(&text("")), "''");
    assert_eq!(sql_literal(&text("''")), "''''''");
    assert_eq!(sql_literal(&num(i64::MIN)), "-9223372036854775808");
    assert_eq!(sql_literal(&SqlValue::Number("1.5".to_string())), "1.5");
}
