//! Schema catalog, migrator and record model of a personal-finance store
//! kept in SQLite.

pub mod schema;
pub mod migration;
pub mod config;
pub mod records;
pub mod setup;
