//! The embedded variant of storage: statements assembled as text for a local
//! file database.

pub mod models;
