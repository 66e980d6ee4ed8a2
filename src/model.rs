//! The snapshots and comparison results the engine works on.

use vstd::prelude::*;

verus! {

/// One column of a table, as the database declares it. Its ordinal position
/// is its index in the table's column list.
#[derive(Clone, Debug)]
pub struct ColumnInfo {
    pub name: String,
    pub data_type: String,
    pub is_nullable: bool,
    pub default_value: Option<String>,
    pub is_primary_key: bool,
}

/// A snapshot of one table: its name, row count, columns in declaration
/// order and the `CREATE TABLE` text it was made with.
#[derive(Clone, Debug)]
pub struct TableInfo {
    pub name: String,
    pub row_count: i64,
    pub columns: Vec<ColumnInfo>,
    pub create_sql: String,
}

/// How a column present in both tables differs.
#[derive(Clone, Debug)]
pub struct ColumnDiff {
    pub column_name: String,
    pub old_type: String,
    pub new_type: String,
    pub changes: Vec<String>,
}

/// How a table present in both databases differs: columns only in the
/// second, names of columns only in the first, and changed columns.
#[derive(Clone, Debug)]
pub struct TableDiff {
    pub table_name: String,
    pub added_columns: Vec<ColumnInfo>,
    pub removed_columns: Vec<String>,
    pub modified_columns: Vec<ColumnDiff>,
}

/// The result of comparing the schemas of two databases.
#[derive(Clone, Debug)]
pub struct SchemaComparison {
    pub database1: String,
    pub database2: String,
    pub added_tables: Vec<String>,
    pub removed_tables: Vec<String>,
    pub modified_tables: Vec<TableDiff>,
    pub identical_tables: Vec<String>,
}

/// Aggregate row counts of one table in two databases.
#[derive(Clone, Debug)]
pub struct DataComparisonResult {
    pub table_name: String,
    pub total_rows_db1: i64,
    pub total_rows_db2: i64,
    pub rows_inserted: i64,
    pub rows_deleted: i64,
    pub rows_potentially_modified: i64,
    pub identical: bool,
}

/// An open database as the user sees it.
#[derive(Clone, Debug)]
pub struct DatabaseInfo {
    pub path: String,
    pub name: String,
    pub table_count: i32,
    pub is_connected: bool,
    pub alias: Option<String>,
    pub password: Option<String>,
}

/// The cipher parameters of an encrypted database.
#[derive(Clone, Debug)]
pub struct MigrationSettings {
    pub page_size: String,
    pub kdf_iterations: String,
    pub hmac_algorithm: String,
    pub kdf_algorithm: String,
    pub cipher: String,
}

/// The outcome of copying a database into an encrypted one.
#[derive(Clone, Debug)]
pub struct MigrationResult {
    pub output_path: String,
    pub message: String,
    pub success: bool,
}

/// Whether a database file is plain or page-encrypted.
#[derive(Clone, Copy, Debug, PartialEq, Eq, Structural)]
pub enum DatabaseType {
    SQLite,
    SQLCipher,
}

/// The view of a column difference.
pub ghost struct ColumnChange {
    pub column: Seq<char>,
    pub old_type: Seq<char>,
    pub new_type: Seq<char>,
    pub changes: Seq<Seq<char>>,
}

/// The view of a table difference.
pub ghost struct TableChange {
    pub table: Seq<char>,
    pub added: Seq<ColumnInfo>,
    pub removed: Seq<Seq<char>>,
    pub modified: Seq<ColumnChange>,
}

impl View for ColumnDiff {
    type V = ColumnChange;

    open spec fn view(&self) -> ColumnChange {
        ColumnChange {
            column: self.column_name@,
            old_type: self.old_type@,
            new_type: self.new_type@,
            changes: self.changes@.map_values(|x: String| x@),
        }
    }
}

impl View for TableDiff {
    type V = TableChange;

    open spec fn view(&self) -> TableChange {
        TableChange {
            table: self.table_name@,
            added: self.added_columns@,
            removed: self.removed_columns@.map_values(|x: String| x@),
            modified: self.modified_columns@.map_values(|d: ColumnDiff| d@),
        }
    }
}

/// The view of a schema comparison.
pub ghost struct ComparisonView {
    pub database1: Seq<char>,
    pub database2: Seq<char>,
    pub added: Seq<Seq<char>>,
    pub removed: Seq<Seq<char>>,
    pub modified: Seq<TableChange>,
    pub identical: Seq<Seq<char>>,
}

impl View for SchemaComparison {
    type V = ComparisonView;

    open spec fn view(&self) -> ComparisonView {
        ComparisonView {
            database1: self.database1@,
            database2: self.database2@,
            added: self.added_tables@.map_values(|x: String| x@),
            removed: self.removed_tables@.map_values(|x: String| x@),
            modified: self.modified_tables@.map_values(|d: TableDiff| d@),
            identical: self.identical_tables@.map_values(|x: String| x@),
        }
    }
}

/// A copy of a column, field by field.
pub fn copy_column(c: &ColumnInfo) -> (r: ColumnInfo)
    ensures
        r == *c,
{
    ColumnInfo {
        name: c.name.clone(),
        data_type: c.data_type.clone(),
        is_nullable: c.is_nullable,
        default_value: match &c.default_value {
            Some(d) => Some(d.clone()),
            None => None,
        },
        is_primary_key: c.is_primary_key,
    }
}

impl DatabaseType {
    /// A file that opens and answers a read without a key is plain;
    /// one that opens but cannot be read is taken to be encrypted.
    pub fn from_probe(readable_without_key: bool) -> (r: DatabaseType)
        ensures
            r == (if readable_without_key {
                DatabaseType::SQLite
            } else {
                DatabaseType::SQLCipher
            }),
    {
        if readable_without_key {
            DatabaseType::SQLite
        } else {
            DatabaseType::SQLCipher
        }
    }
}

} // verus!
