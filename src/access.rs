//! The decisions of the connection and encryption layer: which statements
//! unlock, configure or read a database. The caller runs them.

use vstd::prelude::*;
use vstd::string::*;
use crate::model::{ColumnInfo, DatabaseType, MigrationSettings};
use crate::sql_text::{joined, join_with, push_line};
use crate::text::{texts, signed_decimal, signed_decimal_text};

verus! {

/// The ways of passing a key that are tried in turn, `p` being the password.
pub open spec fn key_statement_forms(p: Seq<char>) -> Seq<Seq<char>> {
    seq![
        "PRAGMA key = '"@ + p + "';"@,
        "PRAGMA key = \""@ + p + "\";"@,
        "PRAGMA key = "@ + p + ";"@,
        "PRAGMA key='"@ + p + "';"@,
    ]
}

fn wrap(a: &str, p: &str, b: &str) -> (r: String)
    ensures
        r@ == a@ + p@ + b@,
{
    let mut s = String::from_str(a);
    s.append(p);
    s.append(b);
    s
}

/// The key statements to try, in order, when unlocking with `password`.
pub fn key_statements(password: &str) -> (r: Vec<String>)
    ensures
        texts(r@) == key_statement_forms(password@),
{
    let mut r: Vec<String> = Vec::new();
    push_line(&mut r, wrap("PRAGMA key = '", password, "';"));
    push_line(&mut r, wrap("PRAGMA key = \"", password, "\";"));
    push_line(&mut r, wrap("PRAGMA key = ", password, ";"));
    push_line(&mut r, wrap("PRAGMA key='", password, "';"));
    assert(texts(r@) =~= key_statement_forms(password@));
    r
}

/// One cipher setting: the pragma's name and its value.
#[derive(Clone, Debug)]
pub struct CipherPragma {
    pub name: String,
    pub value: String,
}

pub open spec fn pragma_view(p: CipherPragma) -> (Seq<char>, Seq<char>) {
    (p.name@, p.value@)
}

/// The HMAC algorithm the engine is given: a supported one as named,
/// anything else as `HMAC_SHA512`.
pub open spec fn hmac_choice(s: Seq<char>) -> Seq<char> {
    if s == "HMAC_SHA1"@ || s == "HMAC_SHA256"@ || s == "HMAC_SHA512"@ {
        s
    } else {
        "HMAC_SHA512"@
    }
}

/// The key derivation the engine is given: a supported one as named,
/// anything else as `PBKDF2_HMAC_SHA512`.
pub open spec fn kdf_choice(s: Seq<char>) -> Seq<char> {
    if s == "PBKDF2_HMAC_SHA1"@ || s == "PBKDF2_HMAC_SHA256"@ || s == "PBKDF2_HMAC_SHA512"@ {
        s
    } else {
        "PBKDF2_HMAC_SHA512"@
    }
}

fn pragma(name: &str, value: String) -> (r: CipherPragma)
    ensures
        r.name@ == name@,
        r.value@ == value@,
{
    CipherPragma { name: String::from_str(name), value }
}

fn choose_hmac(s: &String) -> (r: String)
    ensures
        r@ == hmac_choice(s@),
{
    if *s == String::from_str("HMAC_SHA1") || *s == String::from_str("HMAC_SHA256") || *s
        == String::from_str("HMAC_SHA512") {
        s.clone()
    } else {
        String::from_str("HMAC_SHA512")
    }
}

fn choose_kdf(s: &String) -> (r: String)
    ensures
        r@ == kdf_choice(s@),
{
    if *s == String::from_str("PBKDF2_HMAC_SHA1") || *s == String::from_str("PBKDF2_HMAC_SHA256")
        || *s == String::from_str("PBKDF2_HMAC_SHA512") {
        s.clone()
    } else {
        String::from_str("PBKDF2_HMAC_SHA512")
    }
}

impl MigrationSettings {
    /// The settings a connection uses where the user gave none: page size
    /// 4096, 256000 key derivation iterations, HMAC-SHA256, PBKDF2-HMAC-SHA256.
    pub fn connection_defaults() -> (r: MigrationSettings)
        ensures
            r.page_size@ == "4096"@,
            r.kdf_iterations@ == "256000"@,
            r.hmac_algorithm@ == "HMAC_SHA256"@,
            r.kdf_algorithm@ == "PBKDF2_HMAC_SHA256"@,
            r.cipher@ == Seq::<char>::empty(),
    {
        MigrationSettings {
            page_size: String::from_str("4096"),
            kdf_iterations: String::from_str("256000"),
            hmac_algorithm: String::from_str("HMAC_SHA256"),
            kdf_algorithm: String::from_str("PBKDF2_HMAC_SHA256"),
            cipher: String::new(),
        }
    }

    /// Settings from the fields a user gave, each missing one at its
    /// default (see `connection_defaults`).
    pub fn with_defaults(
        page_size: Option<String>,
        kdf_iterations: Option<String>,
        hmac_algorithm: Option<String>,
        kdf_algorithm: Option<String>,
    ) -> (r: MigrationSettings)
        ensures
            r.page_size@ == (match page_size {
                Some(s) => s@,
                None => "4096"@,
            }),
            r.kdf_iterations@ == (match kdf_iterations {
                Some(s) => s@,
                None => "256000"@,
            }),
            r.hmac_algorithm@ == (match hmac_algorithm {
                Some(s) => s@,
                None => "HMAC_SHA256"@,
            }),
            r.kdf_algorithm@ == (match kdf_algorithm {
                Some(s) => s@,
                None => "PBKDF2_HMAC_SHA256"@,
            }),
            r.cipher@ == Seq::<char>::empty(),
    {
        let d = MigrationSettings::connection_defaults();
        MigrationSettings {
            page_size: match page_size {
                Some(s) => s,
                None => d.page_size,
            },
            kdf_iterations: match kdf_iterations {
                Some(s) => s,
                None => d.kdf_iterations,
            },
            hmac_algorithm: match hmac_algorithm {
                Some(s) => s,
                None => d.hmac_algorithm,
            },
            kdf_algorithm: match kdf_algorithm {
                Some(s) => s,
                None => d.kdf_algorithm,
            },
            cipher: d.cipher,
        }
    }

    /// The pragmas that open an encrypted database with these settings, as given.
    pub fn connection_pragmas(&self) -> (r: Vec<CipherPragma>)
        ensures
            r@.map_values(|p: CipherPragma| pragma_view(p)) == seq![
                ("cipher_page_size"@, self.page_size@),
                ("kdf_iter"@, self.kdf_iterations@),
                ("cipher_hmac_algorithm"@, self.hmac_algorithm@),
                ("cipher_kdf_algorithm"@, self.kdf_algorithm@),
            ],
    {
        let mut r: Vec<CipherPragma> = Vec::new();
        r.push(pragma("cipher_page_size", self.page_size.clone()));
        r.push(pragma("kdf_iter", self.kdf_iterations.clone()));
        r.push(pragma("cipher_hmac_algorithm", self.hmac_algorithm.clone()));
        r.push(pragma("cipher_kdf_algorithm", self.kdf_algorithm.clone()));
        assert(r@.map_values(|p: CipherPragma| pragma_view(p)) =~= seq![
            ("cipher_page_size"@, self.page_size@),
            ("kdf_iter"@, self.kdf_iterations@),
            ("cipher_hmac_algorithm"@, self.hmac_algorithm@),
            ("cipher_kdf_algorithm"@, self.kdf_algorithm@),
        ]);
        r
    }

    /// The pragmas that configure a database being encrypted or rekeyed:
    /// unsupported algorithm names fall back to the SHA-512 variants.
    pub fn cipher_pragmas(&self) -> (r: Vec<CipherPragma>)
        ensures
            r@.map_values(|p: CipherPragma| pragma_view(p)) == seq![
                ("cipher_page_size"@, self.page_size@),
                ("kdf_iter"@, self.kdf_iterations@),
                ("cipher_hmac_algorithm"@, hmac_choice(self.hmac_algorithm@)),
                ("cipher_kdf_algorithm"@, kdf_choice(self.kdf_algorithm@)),
            ],
    {
        let mut r: Vec<CipherPragma> = Vec::new();
        r.push(pragma("cipher_page_size", self.page_size.clone()));
        r.push(pragma("kdf_iter", self.kdf_iterations.clone()));
        r.push(pragma("cipher_hmac_algorithm", choose_hmac(&self.hmac_algorithm)));
        r.push(pragma("cipher_kdf_algorithm", choose_kdf(&self.kdf_algorithm)));
        assert(r@.map_values(|p: CipherPragma| pragma_view(p)) =~= seq![
            ("cipher_page_size"@, self.page_size@),
            ("kdf_iter"@, self.kdf_iterations@),
            ("cipher_hmac_algorithm"@, hmac_choice(self.hmac_algorithm@)),
            ("cipher_kdf_algorithm"@, kdf_choice(self.kdf_algorithm@)),
        ]);
        r
    }
}

/// The first sixteen bytes of every plain SQLite file.
pub open spec fn sqlite_magic() -> Seq<u8> {
    seq![83u8, 81, 76, 105, 116, 101, 32, 102, 111, 114, 109, 97, 116, 32, 51, 0]
}

impl DatabaseType {
    /// A file whose header starts with the SQLite magic is plain; any other
    /// is taken to be encrypted.
    pub fn from_header(header: &[u8]) -> (r: DatabaseType)
        ensures
            r == (if header@.len() >= 16 && header@.subrange(0, 16) == sqlite_magic() {
                DatabaseType::SQLite
            } else {
                DatabaseType::SQLCipher
            }),
    {
        let magic: [u8; 16] = [83, 81, 76, 105, 116, 101, 32, 102, 111, 114, 109, 97, 116, 32, 51, 0];
        assert(magic@ =~= sqlite_magic());
        if header.len() < 16 {
            return DatabaseType::SQLCipher;
        }
        let mut i: usize = 0;
        while i < 16
            invariant
                i <= 16 <= header@.len(),
                magic@ == sqlite_magic(),
                forall|k: int| 0 <= k < i ==> header@[k] == sqlite_magic()[k],
            decreases 16 - i,
        {
            if header[i] != magic[i] {
                assert(header@.subrange(0, 16)[i as int] != sqlite_magic()[i as int]);
                return DatabaseType::SQLCipher;
            }
            i = i + 1;
        }
        assert(header@.subrange(0, 16) =~= sqlite_magic());
        DatabaseType::SQLite
    }

    /// The name of the type as callers read it.
    pub fn name(&self) -> (r: String)
        ensures
            r@ == (match self {
                DatabaseType::SQLite => "sqlite"@,
                DatabaseType::SQLCipher => "sqlcipher"@,
            }),
    {
        match self {
            DatabaseType::SQLite => String::from_str("sqlite"),
            DatabaseType::SQLCipher => String::from_str("sqlcipher"),
        }
    }
}

/// A column as a `table_info` row describes it: nullable unless its
/// not-null flag is set, primary key when its key flag is 1.
pub fn column_from_pragma(name: String, data_type: String, not_null: i32, default_value: Option<String>, pk: i32) -> (r: ColumnInfo)
    ensures
        r.name == name,
        r.data_type == data_type,
        r.is_nullable == (not_null == 0),
        r.default_value == default_value,
        r.is_primary_key == (pk == 1),
{
    ColumnInfo { name, data_type, is_nullable: not_null == 0, default_value, is_primary_key: pk == 1 }
}

/// The query reading a page of `table`: its columns, quoted, in order, with
/// the limit and offset that are given.
pub open spec fn page_query(columns: Seq<Seq<char>>, table: Seq<char>, limit: Option<i64>, offset: Option<i64>) -> Seq<char> {
    "SELECT "@ + joined(columns.map_values(|c: Seq<char>| "\""@ + c + "\""@), ", "@) + " FROM \""@
        + table + "\""@ + (match limit {
        Some(l) => " LIMIT "@ + signed_decimal(l as int),
        None => Seq::empty(),
    }) + (match offset {
        Some(o) => " OFFSET "@ + signed_decimal(o as int),
        None => Seq::empty(),
    })
}

/// Writes the page query (see `page_query`).
pub fn table_page_query(columns: &Vec<String>, table: &str, limit: Option<i64>, offset: Option<i64>) -> (r: String)
    ensures
        r@ == page_query(texts(columns@), table@, limit, offset),
{
    let mut q: Vec<String> = Vec::new();
    let mut i: usize = 0;
    while i < columns.len()
        invariant
            i <= columns@.len(),
            texts(q@) == texts(columns@).subrange(0, i as int).map_values(|c: Seq<char>| "\""@ + c + "\""@),
        decreases columns@.len() - i,
    {
        push_line(&mut q, wrap("\"", columns[i].as_str(), "\""));
        i = i + 1;
        assert(texts(q@) =~= texts(columns@).subrange(0, i as int).map_values(
            |c: Seq<char>| "\""@ + c + "\""@,
        ));
    }
    assert(texts(columns@).subrange(0, i as int) =~= texts(columns@));
    let mut s = String::from_str("SELECT ");
    s.append(join_with(&q, ", ").as_str());
    s.append(" FROM \"");
    s.append(table);
    s.append("\"");
    match limit {
        Some(l) => {
            s.append(" LIMIT ");
            s.append(signed_decimal_text(l).as_str());
        },
        None => {},
    }
    match offset {
        Some(o) => {
            s.append(" OFFSET ");
            s.append(signed_decimal_text(o).as_str());
        },
        None => {},
    }
    s
}

/// The page actually read: once the trial has expired, two rows from the start.
pub fn effective_page(expired: bool, limit: Option<i64>, offset: Option<i64>) -> (r: (Option<i64>, Option<i64>))
    ensures
        r == (if expired {
            (Some(2i64), Some(0i64))
        } else {
            (limit, offset)
        }),
{
    if expired {
        (Some(2), Some(0))
    } else {
        (limit, offset)
    }
}

/// The file name of an encrypted copy of the database named `stem`.
pub fn encrypted_copy_name(stem: &str, stamp: &str) -> (r: String)
    ensures
        r@ == stem@ + "_encrypted_"@ + stamp@ + ".db"@,
{
    let mut s = String::from_str(stem);
    s.append("_encrypted_");
    s.append(stamp);
    s.append(".db");
    s
}

/// The statement inserting one row of `n` values into `table`, as parameters.
pub open spec fn row_insert(table: Seq<char>, n: nat) -> Seq<char> {
    "INSERT INTO "@ + table + " VALUES ("@ + joined(Seq::new(n, |i: int| "?"@), ", "@) + ")"@
}

/// Writes the parameterized row insert (see `row_insert`).
pub fn row_insert_statement(table: &str, n: usize) -> (r: String)
    ensures
        r@ == row_insert(table@, n as nat),
{
    let mut marks: Vec<String> = Vec::new();
    let mut i: usize = 0;
    while i < n
        invariant
            i <= n,
            texts(marks@) == Seq::new(i as nat, |k: int| "?"@),
        decreases n - i,
    {
        push_line(&mut marks, String::from_str("?"));
        i = i + 1;
        assert(texts(marks@) =~= Seq::new(i as nat, |k: int| "?"@));
    }
    let mut s = String::from_str("INSERT INTO ");
    s.append(table);
    s.append(" VALUES (");
    s.append(join_with(&marks, ", ").as_str());
    s.append(")");
    s
}

} // verus!
