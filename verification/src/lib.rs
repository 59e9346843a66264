//! Persistence logic of a diagram editor.
//!
//! A diagram owns tables, and a table owns fields; both kinds of ownership are
//! recorded in link rows of their own. This crate holds everything that decides
//! what is written and what is returned, and nothing that talks to a database:
//!
//! - `ids` hands out identifiers that never repeat;
//! - `entity` holds the wire views, the storage rows and the conversions between
//!   them;
//! - `tables` plans every change to a table, its fields and their links as the
//!   writes of one transaction, and assembles what a read of tables returns;
//! - `diagrams` assembles whole diagrams from rows read once for all of them;
//! - `store` says what the writes and reads mean, `memory` performs them on
//!   vectors, and `laws`, `batch_laws` and `invariants` state what holds of the
//!   plans once they have run;
//! - `references` and `todos` plan the simpler operations, `common`, `error` and
//!   `init` hold the envelope, the errors and the start-up logic, and `db` the
//!   statements of the embedded variant.

pub mod batch_laws;
pub mod common;
pub mod db;
pub mod diagrams;
pub mod entity;
pub mod error;
pub mod grouping;
pub mod ids;
pub mod init;
pub mod invariants;
pub mod laws;
pub mod memory;
pub mod references;
pub mod seqs;
pub mod store;
pub mod tables;
pub mod text;
pub mod todos;
