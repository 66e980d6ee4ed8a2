use plandbdiff::access::{
    column_from_pragma, effective_page, encrypted_copy_name, key_statements, row_insert_statement,
    table_page_query,
};
use plandbdiff::license::{
    active_days, get_license_file_path, install_stamp, license_status_at, machine_id, read_install_stamp,
    trial_info, LicenseManager, LicenseType, INSTALL_STAMP_KEY,
};
use plandbdiff::model::{DatabaseType, MigrationSettings};

#[test]
fn license_key_format() {
    let m = LicenseManager::in_dir("/home/u/.config/SQLCipherTool");
    assert_eq!(m.license_file, "/home/u/.config/SQLCipherTool/license.json");
    assert!(m.validate_license_format("ABCD-1234-EFGH-5678"));
    assert!(!m.validate_license_format("ABCD-1234-EFGH-567"));
    assert!(!m.validate_license_format("ABCD-1234-EFGH-56_8"));
    assert!(!m.validate_license_format("ABCD-1234-EFGH-5!78"));
    assert!(!m.validate_license_format("ABCD1-234-EFGH-5678"));
    assert!(!m.validate_license_format("ABCDE1234EFGH5678XY"));
    assert_eq!(get_license_file_path("d"), "d/license.json");
}

#[test]
fn license_status_by_expiry() {
    let now = 1_700_000_000;
    let s = license_status_at(LicenseType::Monthly, Some(now + 10 * 86400 + 5), now);
    assert!(s.is_valid);
    assert_eq!(s.days_remaining, Some(10));
    assert_eq!(s.message, "License active - Monthly license");
    let e = license_status_at(LicenseType::Yearly, Some(now - 1), now);
    assert!(!e.is_valid);
    assert_eq!(e.days_remaining, Some(0));
    assert_eq!(e.message, "License expired");
    let l = license_status_at(LicenseType::Trial, None, now);
    assert_eq!(l.license_type, LicenseType::Lifetime);
    assert_eq!(l.message, "Lifetime license active");
    assert_eq!(LicenseType::from_server("yearly"), Some(LicenseType::Yearly));
    assert_eq!(LicenseType::from_server("weekly"), None);
}

#[test]
fn machine_id_hashes_its_parts() {
    let a = machine_id(Some("host"), Some("00:11:22:33:44:55"), "linux");
    assert_eq!(a.len(), 64);
    assert!(a.chars().all(|c| c.is_ascii_hexdigit() && !c.is_ascii_uppercase()));
    assert_ne!(a, machine_id(Some("other"), Some("00:11:22:33:44:55"), "linux"));
    assert_eq!(
        machine_id(None, None, "abc"),
        "ba7816bf8f01cfea414140de5dae2223b00361a396177a9cb410ff61f20015ad"
    );
}

#[test]
fn trial_period() {
    let t = trial_info(10, "1.0.0");
    assert!(!t.is_expired);
    assert_eq!(t.remaining_days, 80);
    let x = trial_info(91, "1.0.0");
    assert!(x.is_expired);
    assert_eq!(x.remaining_days, 0);
    let edge = trial_info(90, "v");
    assert!(!edge.is_expired);
    assert_eq!(edge.remaining_days, 0);
    assert_eq!(active_days(1000, 1000 + 3 * 86400 + 7), 3);
    assert_eq!(active_days(1000, 10), 0);
}

#[test]
fn install_stamp_round_trips() {
    let t: u64 = 1_700_000_123;
    let stored = install_stamp(t);
    assert_eq!(stored, t ^ INSTALL_STAMP_KEY);
    assert_eq!(read_install_stamp(&stored.to_le_bytes()), Some(t));
    assert_eq!(read_install_stamp(&[1, 2, 3]), None);
}

#[test]
fn access_layer_statements() {
    assert_eq!(
        key_statements("pw"),
        vec![
            "PRAGMA key = 'pw';".to_string(),
            "PRAGMA key = \"pw\";".to_string(),
            "PRAGMA key = pw;".to_string(),
            "PRAGMA key='pw';".to_string(),
        ]
    );
    let s = MigrationSettings::with_defaults(Some("1024".to_string()), None, Some("HMAC_MD5".to_string()), None);
    let raw: Vec<(String, String)> = s.connection_pragmas().into_iter().map(|p| (p.name, p.value)).collect();
    assert_eq!(raw[0], ("cipher_page_size".to_string(), "1024".to_string()));
    assert_eq!(raw[1], ("kdf_iter".to_string(), "256000".to_string()));
    assert_eq!(raw[2].1, "HMAC_MD5");
    let fixed: Vec<(String, String)> = s.cipher_pragmas().into_iter().map(|p| (p.name, p.value)).collect();
    assert_eq!(fixed[2], ("cipher_hmac_algorithm".to_string(), "HMAC_SHA512".to_string()));
    assert_eq!(fixed[3], ("cipher_kdf_algorithm".to_string(), "PBKDF2_HMAC_SHA256".to_string()));
    assert_eq!(DatabaseType::from_header(b"SQLite format 3\0rest"), DatabaseType::SQLite);
    assert_eq!(DatabaseType::from_header(&[0u8; 16]), DatabaseType::SQLCipher);
    assert_eq!(DatabaseType::from_probe(false), DatabaseType::SQLCipher);
    let c = column_from_pragma("id".to_string(), "INTEGER".to_string(), 1, None, 1);
    assert!(!c.is_nullable && c.is_primary_key);
    assert_eq!(
        table_page_query(&vec!["a".to_string(), "b".to_string()], "t", Some(10), Some(20)),
        "SELECT \"a\", \"b\" FROM \"t\" LIMIT 10 OFFSET 20"
    );
    assert_eq!(effective_page(true, Some(100), None), (Some(2), Some(0)));
    assert_eq!(encrypted_copy_name("db", "20240101_000000"), "db_encrypted_20240101_000000.db");
    assert_eq!(row_insert_statement("t", 3), "INSERT INTO t VALUES (?, ?, ?)");
}

#[test]
fn page_query_extremes() {
    assert_eq!(
        table_page_query(&vec!["x".to_string()], "t", None, Some(i64::MIN)),
        "SELECT \"x\" FROM \"t\" OFFSET -9223372036854775808"
    );
    assert_eq!(table_page_query(&vec![], "t", None, None), "SELECT  FROM \"t\"");
    assert_eq!(
        plandbdiff::executor::success_message("Data", usize::MAX),
        format!("Data patch applied successfully. Executed {} statements.", usize::MAX)
    );
}
