//! Schema and data reconciliation for SQLite-family databases, plain or
//! page-encrypted.
//!
//! - `schema_diff` compares two schema snapshots; `schema_laws` states how
//!   its buckets partition the tables and how it mirrors when swapped.
//! - `schema_patch` turns a comparison into DDL, recreating tables where
//!   `ALTER TABLE` cannot; `patch_laws` states what running that DDL yields.
//! - `data_patch` turns a row-level diff into DML; `literal` writes values.
//! - `executor` decides how a patch script is split and batched.
//! - `fast_compare` holds the anti-join counting queries and their result.
//! - `access` and `license` hold the decisions of the connection,
//!   encryption and licensing layers.

pub mod access;
pub mod clock;
pub mod data_patch;
pub mod executor;
pub mod fast_compare;
pub mod license;
pub mod literal;
pub mod model;
pub mod patch_laws;
pub mod schema_diff;
pub mod schema_laws;
pub mod schema_patch;
pub mod sql_text;
pub mod text;
