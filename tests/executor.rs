use plandbdiff::executor::{
    failure_message, plan_execution, success_message, DATA_BATCH_SIZE, SCHEMA_BATCH_SIZE,
};
use plandbdiff::data_patch::{data_patch_lines, Field, PatchType, Row, TableRowDiff};
use plandbdiff::literal::SqlValue;
use plandbdiff::schema_patch::PatchDirection;
use plandbdiff::text::{runnable, split_statements};

#[test]
fn statements_are_split_trimmed_and_kept_whole() {
    let s = split_statements("  CREATE TABLE a (x);\n-- note\nINSERT INTO a VALUES (1);;  ;\n");
    assert_eq!(
        s,
        vec!["CREATE TABLE a (x)".to_string(), "-- note\nINSERT INTO a VALUES (1)".to_string()]
    );
}

#[test]
fn transaction_statements_and_comments_do_not_run() {
    assert!(!runnable("BEGIN TRANSACTION"));
    assert!(!runnable("-- header\n  begin immediate"));
    assert!(!runnable("COMMIT"));
    assert!(!runnable("-- only a comment\n   -- another"));
    assert!(runnable("-- Create table\nCREATE TABLE t (x)"));
    assert!(runnable("INSERT INTO t VALUES ('--')"));
    assert!(runnable("SELECT 1"));
}

#[test]
fn comment_lines_are_kept_in_executed_statements() {
    let p = plan_execution("BEGIN TRANSACTION;\n-- Create table\nCREATE TABLE t (x);\nINSERT INTO t VALUES ('a\n-- b');\nCOMMIT;\n", 500);
    assert_eq!(p.runnable, vec![1, 2]);
    assert_eq!(p.statements[1], "-- Create table\nCREATE TABLE t (x)");
    assert_eq!(p.statements[2], "INSERT INTO t VALUES ('a\n-- b')");
}

#[test]
fn fifteen_hundred_statements_take_three_batches() {
    let mut script = String::from("BEGIN TRANSACTION;\n");
    for i in 0..1500 {
        script.push_str(&format!("INSERT INTO t VALUES ({});\n", i));
    }
    script.push_str("COMMIT;\n");
    let p = plan_execution(&script, SCHEMA_BATCH_SIZE);
    assert_eq!(p.runnable.len(), 1500);
    assert_eq!(p.batch_count(), 3);
    assert_eq!(p.batch_bounds(0), (0, 500));
    assert_eq!(p.batch_bounds(1), (500, 1000));
    assert_eq!(p.batch_bounds(2), (1000, 1500));
    let failing = 1199;
    let k = failing / SCHEMA_BATCH_SIZE;
    assert_eq!(k, 2);
    assert_eq!(p.batch_bounds(k).0, 1000);
    let d = plan_execution(&script, DATA_BATCH_SIZE);
    assert_eq!(d.batch_count(), 2);
    assert_eq!(d.batch_bounds(1), (1000, 1500));
}

#[test]
fn uneven_batches() {
    let p = plan_execution("a;b;c;d;e", 2);
    assert_eq!(p.batch_count(), 3);
    assert_eq!(p.batch_bounds(2), (4, 5));
    assert_eq!(plan_execution("", 2).batch_count(), 0);
}

#[test]
fn reports_name_index_total_cause_and_text() {
    assert_eq!(
        failure_message(1199, 1502, "no such table: x", "INSERT INTO x VALUES (1)", 1000),
        "Error at statement 1200/1502: no such table: x\nStatement: INSERT INTO x VALUES (1)\nStatements committed by earlier batches stay applied: 1000"
    );
    assert_eq!(success_message("Schema", 3), "Schema patch applied successfully. Executed 3 statements.");
}

#[test]
fn terminators_inside_literals_and_comments_do_not_split() {
    let s = split_statements(
        "-- Apply to: it's; a.db\nINSERT INTO t VALUES ('a;b', \"c;d\", `e;f`, [g;h]);\n/* x; 'y */ DELETE FROM t WHERE id = 'it''s;';",
    );
    assert_eq!(
        s,
        vec![
            "-- Apply to: it's; a.db\nINSERT INTO t VALUES ('a;b', \"c;d\", `e;f`, [g;h])".to_string(),
            "/* x; 'y */ DELETE FROM t WHERE id = 'it''s;'".to_string(),
        ]
    );
}

#[test]
fn generated_data_patch_splits_into_its_statements() {
    let d = TableRowDiff {
        table_name: "t".to_string(),
        key_column: "id".to_string(),
        missing_in_target: vec![Row {
            fields: vec![
                Field { name: "id".to_string(), value: SqlValue::Number("1".to_string()) },
                Field { name: "note".to_string(), value: SqlValue::Text("x; y -- 'z'".to_string()) },
            ],
        }],
        extra_in_target: vec![],
        different_rows: vec![],
        common_columns: vec!["id".to_string(), "note".to_string()],
    };
    let lines = data_patch_lines("a;b.db", "c'd.db", &vec![d], PatchDirection::SourceToTarget, PatchType::All, "now")
        .ok()
        .unwrap();
    let text = lines.join("\n");
    let p = plan_execution(&text, DATA_BATCH_SIZE);
    assert_eq!(p.runnable.len(), 1);
    assert!(p.statements[p.runnable[0]].ends_with("INSERT INTO t (id, note) VALUES (1, 'x; y -- ''z''')"));
}
