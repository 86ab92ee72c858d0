//! One module for each agent whose records can be loaded, and what those that
//! keep their records in SQLite share.
pub mod amp;
pub mod goose;
pub mod hermes;
pub mod session_table;
pub mod sqlite_util;
