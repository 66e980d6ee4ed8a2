use plandbdiff::model::{ColumnInfo, TableInfo};
use plandbdiff::schema_diff::compare_schemas;
use plandbdiff::schema_patch::{
    generate_schema_patch, generate_table_schema_patch, plan_table, schema_patch_lines, PatchDirection,
    SchemaPatchError, TablePatchError, TablePlan, TableStatus,
};
use plandbdiff::sql_text::fixed_collations;

fn col(name: &str, ty: &str, pk: bool) -> ColumnInfo {
    ColumnInfo {
        name: name.to_string(),
        data_type: ty.to_string(),
        is_nullable: !pk,
        default_value: None,
        is_primary_key: pk,
    }
}

fn table(name: &str, cols: Vec<ColumnInfo>) -> TableInfo {
    let defs: Vec<String> = cols.iter().map(|c| format!("{} {}", c.name, c.data_type)).collect();
    TableInfo {
        name: name.to_string(),
        row_count: 0,
        create_sql: format!("CREATE TABLE {} ({})", name, defs.join(", ")),
        columns: cols,
    }
}

fn names(v: &[String]) -> Vec<&str> {
    v.iter().map(|s| s.as_str()).collect()
}

fn sample() -> (Vec<TableInfo>, Vec<TableInfo>) {
    let a = vec![
        table("users", vec![col("id", "INTEGER", true), col("name", "TEXT", false)]),
        table("logs", vec![col("id", "INTEGER", true)]),
        table("orders", vec![col("id", "INTEGER", true), col("total", "REAL", false)]),
    ];
    let b = vec![
        table("users", vec![col("id", "integer", true), col("name", "TEXT", false)]),
        table("orders", vec![col("id", "INTEGER", true), col("total", "TEXT", false), col("note", "TEXT", false)]),
        table("audit", vec![col("id", "INTEGER", true)]),
    ];
    (a, b)
}

#[test]
fn every_table_lands_in_one_bucket() {
    let (a, b) = sample();
    let c = compare_schemas("a.db", "b.db", &a, &b);
    assert_eq!(names(&c.added_tables), vec!["audit"]);
    assert_eq!(names(&c.removed_tables), vec!["logs"]);
    assert_eq!(names(&c.identical_tables), vec!["users"]);
    assert_eq!(c.modified_tables.len(), 1);
    let d = &c.modified_tables[0];
    assert_eq!(d.table_name, "orders");
    assert_eq!(d.added_columns.len(), 1);
    assert_eq!(d.added_columns[0].name, "note");
    assert!(d.removed_columns.is_empty());
    assert_eq!(d.modified_columns.len(), 1);
    assert_eq!(d.modified_columns[0].column_name, "total");
    assert_eq!(d.modified_columns[0].changes, vec!["type: REAL -> TEXT".to_string()]);
    for t in ["users", "logs", "orders", "audit"] {
        let mut n = 0;
        if c.added_tables.iter().any(|x| x == t) { n += 1; }
        if c.removed_tables.iter().any(|x| x == t) { n += 1; }
        if c.identical_tables.iter().any(|x| x == t) { n += 1; }
        if c.modified_tables.iter().any(|x| x.table_name == t) { n += 1; }
        assert_eq!(n, 1, "table {}", t);
    }
}

#[test]
fn comparison_mirrors_when_swapped() {
    let (a, b) = sample();
    let ab = compare_schemas("a.db", "b.db", &a, &b);
    let ba = compare_schemas("b.db", "a.db", &b, &a);
    assert_eq!(ab.added_tables, ba.removed_tables);
    assert_eq!(ab.removed_tables, ba.added_tables);
    assert_eq!(ab.identical_tables, ba.identical_tables);
    let x = &ab.modified_tables[0];
    let y = &ba.modified_tables[0];
    assert_eq!(x.table_name, y.table_name);
    let added: Vec<String> = x.added_columns.iter().map(|c| c.name.clone()).collect();
    assert_eq!(added, y.removed_columns);
    assert_eq!(x.modified_columns[0].old_type, y.modified_columns[0].new_type);
}

#[test]
fn column_changes_describe_each_attribute() {
    let mut c1 = col("v", "INT", false);
    let mut c2 = col("v", "TEXT", true);
    c1.default_value = Some("0".to_string());
    c2.default_value = None;
    let a = vec![table("t", vec![col("id", "INTEGER", true), c1])];
    let b = vec![table("t", vec![col("id", "INTEGER", true), c2])];
    let c = compare_schemas("a", "b", &a, &b);
    let changes = &c.modified_tables[0].modified_columns[0].changes;
    assert_eq!(
        changes,
        &vec![
            "type: INT -> TEXT".to_string(),
            "nullability: true -> false".to_string(),
            "primary key: false -> true".to_string(),
            "default changed".to_string(),
        ]
    );
}

#[test]
fn type_case_does_not_make_a_difference() {
    let a = vec![table("t", vec![col("id", "INTEGER", true)])];
    let b = vec![table("t", vec![col("id", "integer", true)])];
    let c = compare_schemas("a", "b", &a, &b);
    assert_eq!(names(&c.identical_tables), vec!["t"]);
    assert!(c.modified_tables.is_empty());
}

fn patch(source: &[TableInfo], target: &[TableInfo], dir: PatchDirection) -> String {
    let lines = schema_patch_lines("src.db", "tgt.db", &source.to_vec(), &target.to_vec(), dir, "2024-01-01")
        .ok()
        .expect("patch");
    let mut s = String::new();
    for l in lines {
        s.push_str(&l);
        s.push('\n');
    }
    s
}

#[test]
fn appended_column_is_a_single_alter_in_reverse() {
    let source = vec![table("t", vec![col("id", "INTEGER", true), col("name", "TEXT", false)])];
    let target = vec![table(
        "t",
        vec![col("id", "INTEGER", true), col("name", "TEXT", false), col("email", "TEXT", false)],
    )];
    let text = patch(&source, &target, PatchDirection::TargetToSource);
    assert_eq!(text.matches("ALTER TABLE").count(), 1);
    assert!(text.contains("ALTER TABLE `t` ADD COLUMN `email` TEXT;\n"));
    assert!(!text.contains("RENAME TO"));
    assert!(text.contains("BEGIN TRANSACTION;\n"));
    assert!(text.contains("COMMIT;\n"));
}

#[test]
fn appended_column_is_a_single_alter_forward() {
    let source = vec![table(
        "t",
        vec![col("id", "INTEGER", true), col("name", "TEXT", false), col("email", "TEXT", false)],
    )];
    let target = vec![table("t", vec![col("id", "INTEGER", true), col("name", "TEXT", false)])];
    let text = patch(&source, &target, PatchDirection::SourceToTarget);
    assert_eq!(text.matches("ALTER TABLE").count(), 1);
    assert!(text.contains("ALTER TABLE `t` ADD COLUMN `email` TEXT;\n"));
    assert!(!text.contains("PRAGMA foreign_keys=off;"));
    assert_eq!(plan_table(&target[0], &source[0]), TablePlan::AddColumns);
}

#[test]
fn add_column_keeps_not_null_and_default() {
    let mut email = col("email", "TEXT", false);
    email.is_nullable = false;
    email.default_value = Some("''".to_string());
    let source = vec![table("t", vec![col("id", "INTEGER", true), email])];
    let target = vec![table("t", vec![col("id", "INTEGER", true)])];
    let text = patch(&source, &target, PatchDirection::SourceToTarget);
    assert!(text.contains("ALTER TABLE `t` ADD COLUMN `email` TEXT NOT NULL DEFAULT '';\n"));
}

#[test]
fn mid_schema_column_forces_recreation() {
    let source = vec![table(
        "t",
        vec![col("id", "INTEGER", true), col("c", "TEXT", false), col("a", "TEXT", false), col("b", "TEXT", false)],
    )];
    let target = vec![table("t", vec![col("id", "INTEGER", true), col("a", "TEXT", false)])];
    assert_eq!(plan_table(&target[0], &source[0]), TablePlan::Recreate);
    let text = patch(&source, &target, PatchDirection::SourceToTarget);
    let steps = [
        "PRAGMA foreign_keys=off;",
        "BEGIN IMMEDIATE;",
        "ALTER TABLE `t` RENAME TO `t_old`;",
        "CREATE TABLE t (id INTEGER, c TEXT, a TEXT, b TEXT);",
        "INSERT INTO `t` (`id`, `a`)\nSELECT `id`, `a`\nFROM `t_old`;",
        "DROP TABLE `t_old`;",
        "COMMIT;",
        "PRAGMA foreign_keys=on;",
    ];
    let mut at = 0;
    for s in steps {
        let pos = text[at..].find(s).expect(s);
        at += pos + s.len();
    }
    assert!(!text.contains("ADD COLUMN"));
    assert!(!text.contains("BEGIN TRANSACTION;"));
    assert!(text.contains("--   Added (from source): c, b\n"));
}

#[test]
fn dropped_column_forces_recreation() {
    let source = vec![table("t", vec![col("id", "INTEGER", true)])];
    let target = vec![table("t", vec![col("id", "INTEGER", true), col("extra", "TEXT", false)])];
    let text = patch(&source, &target, PatchDirection::SourceToTarget);
    assert!(text.contains("ALTER TABLE `t` RENAME TO `t_old`;"));
    assert!(text.contains("--   Dropped (not in source): extra\n"));
}

#[test]
fn recreation_without_common_columns_is_refused() {
    let source = vec![table("t", vec![col("x", "INTEGER", false)])];
    let target = vec![table("t", vec![col("y", "INTEGER", false)])];
    match schema_patch_lines("s", "t", &source, &target, PatchDirection::SourceToTarget, "now") {
        Err(SchemaPatchError::NoCommonColumns(t)) => assert_eq!(t, "t"),
        Ok(_) => panic!("expected a data-loss error"),
    }
    assert!(generate_schema_patch("s", "t", &source, &target, PatchDirection::SourceToTarget).is_err());
}

#[test]
fn tables_are_created_and_dropped_by_direction() {
    let source = vec![table("only_src", vec![col("id", "INTEGER", true)])];
    let target = vec![table("only_tgt", vec![col("id", "INTEGER", true)])];
    let fwd = patch(&source, &target, PatchDirection::SourceToTarget);
    assert!(fwd.contains("-- Create table from source\nCREATE TABLE only_src (id INTEGER);\n"));
    assert!(fwd.contains("DROP TABLE IF EXISTS `only_tgt`;\n"));
    let rev = patch(&source, &target, PatchDirection::TargetToSource);
    assert!(rev.contains("-- Create table from target\nCREATE TABLE only_tgt (id INTEGER);\n"));
    assert!(rev.contains("DROP TABLE IF EXISTS `only_src`;\n"));
    assert!(rev.starts_with("-- Schema Migration Patch\n-- Direction: Target -> Source (Reverse)\n-- Template: tgt.db (Target)\n-- Apply to: src.db (Source)\n-- Generated: 2024-01-01\n"));
    assert!(rev.ends_with("COMMIT;\n\n-- Migration complete\n"));
}

#[test]
fn swapped_inputs_and_direction_give_the_same_body() {
    let (a, b) = sample();
    let fwd = patch(&a, &b, PatchDirection::SourceToTarget);
    let rev = patch(&b, &a, PatchDirection::TargetToSource);
    let body = |s: &str| -> Vec<String> {
        s.lines().filter(|l| !l.starts_with("--")).map(|l| l.to_string()).collect()
    };
    assert_eq!(body(&fwd), body(&rev));
}

#[test]
fn generated_patch_is_stamped() {
    let (a, b) = sample();
    let text = generate_schema_patch("a", "b", &a, &b, PatchDirection::SourceToTarget).ok().unwrap();
    assert!(text.starts_with("-- Schema Migration Patch\n"));
    assert!(text.contains("-- Generated: "));
}

#[test]
fn collations_are_rewritten_to_binary() {
    let s = fixed_collations("CREATE TABLE t (a TEXT COLLATE UTF16, b TEXT COLLATE utf8, c TEXT COLLATE NOCASE)");
    assert_eq!(s, "CREATE TABLE t (a TEXT COLLATE BINARY, b TEXT COLLATE BINARY, c TEXT COLLATE NOCASE)");
}

#[test]
fn single_table_patch_follows_status() {
    let source = vec![
        table("t", vec![col("id", "INTEGER", true), col("name", "TEXT", false)]),
        table("gone", vec![col("id", "INTEGER", true)]),
    ];
    let target = vec![table("t", vec![col("id", "INTEGER", true)])];
    let added = generate_table_schema_patch("t", "modified", "s", "g", &source, &target, PatchDirection::SourceToTarget)
        .ok()
        .unwrap();
    assert!(added.starts_with("-- Single Table Schema Patch: t\n"));
    assert!(added.contains("ALTER TABLE `t` ADD COLUMN `name` TEXT;\n"));
    assert!(added.ends_with("\n-- Table patch complete\n"));
    let created = generate_table_schema_patch("gone", "removed", "s", "g", &source, &target, PatchDirection::SourceToTarget)
        .ok()
        .unwrap();
    assert!(created.contains("-- Create table from source database\nCREATE TABLE gone (id INTEGER);\n"));
    match generate_table_schema_patch("t", "renamed", "s", "g", &source, &target, PatchDirection::SourceToTarget) {
        Err(TablePatchError::InvalidStatus(s)) => assert_eq!(s, "renamed"),
        _ => panic!("expected an invalid status"),
    }
    match generate_table_schema_patch("nope", "added", "s", "g", &source, &target, PatchDirection::SourceToTarget) {
        Err(TablePatchError::TableNotFound(s)) => assert_eq!(s, "nope"),
        _ => panic!("expected a missing table"),
    }
    match generate_table_schema_patch("gone", "modified", "s", "g", &source, &target, PatchDirection::SourceToTarget) {
        Err(TablePatchError::NotModified(s)) => assert_eq!(s, "gone"),
        _ => panic!("expected an unmodified table"),
    }
    assert_eq!(TableStatus::parse("added"), Some(TableStatus::Added));
    assert_eq!(PatchDirection::parse("target_to_source"), PatchDirection::TargetToSource);
    assert_eq!(PatchDirection::parse("anything"), PatchDirection::SourceToTarget);
}

#[test]
fn empty_schemas_compare_empty() {
    let c = compare_schemas("a", "b", &vec![], &vec![]);
    assert!(c.added_tables.is_empty() && c.removed_tables.is_empty());
    assert!(c.modified_tables.is_empty() && c.identical_tables.is_empty());
    assert_eq!(c.database1, "a");
    assert_eq!(c.database2, "b");
}

#[test]
fn identical_schemas_give_an_empty_transaction() {
    let (a, _) = sample();
    let text = patch(&a, &a, PatchDirection::SourceToTarget);
    assert!(text.contains("BEGIN TRANSACTION;\n\nCOMMIT;\n\n-- Migration complete\n"));
    assert!(!text.contains("ALTER") && !text.contains("DROP") && !text.contains("CREATE"));
}
