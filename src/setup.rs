//! What the application hands to its database layer at startup: the
//! connection string and the migration catalog.

use crate::config::{connection_string, connection_target, ConfigError};
use crate::migration::{is_catalog, migrations, Migration};
use vstd::prelude::*;

verus! {

/// The database to open and the migrations to apply to it.
pub struct DatabaseSetup {
    pub connection: String,
    pub migrations: Vec<Migration>,
}

/// Resolves the configured database name into the setup that the database
/// layer needs; a missing name fails here, before any database is opened.
pub fn database_setup(database_name: Option<&str>) -> (r: Result<DatabaseSetup, ConfigError>)
    ensures
        match database_name {
            Some(n) if n@.len() > 0 => r is Ok && r->Ok_0.connection@ == connection_target(n@)
                && is_catalog(r->Ok_0.migrations@),
            _ => r is Err && r->Err_0 == ConfigError::MissingDatabaseName,
        },
{
    match connection_string(database_name) {
        Ok(connection) => Ok(DatabaseSetup { connection, migrations: migrations() }),
        Err(e) => Err(e),
    }
}

} // verus!
