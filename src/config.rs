//! Resolution of the database's connection string from the configured
//! database name.

use vstd::prelude::*;
use vstd::string::StringExecFns;

verus! {

/// Why no connection string could be formed.
#[derive(Clone, Copy, Debug, PartialEq, Eq, Structural)]
pub enum ConfigError {
    /// No database name was configured, or the configured one is empty.
    MissingDatabaseName,
}

/// The connection string of the SQLite file named after the database.
pub open spec fn connection_target(name: Seq<char>) -> Seq<char> {
    "sqlite:"@ + name + ".db"@
}

/// Forms `sqlite:<name>.db` from the configured database name; an absent or
/// empty name is a configuration error, reported before any database is
/// opened.
pub fn connection_string(database_name: Option<&str>) -> (r: Result<String, ConfigError>)
    ensures
        match database_name {
            Some(n) if n@.len() > 0 => r is Ok && r->Ok_0@ == connection_target(n@),
            _ => r == Err::<String, ConfigError>(ConfigError::MissingDatabaseName),
        },
{
    match database_name {
        Some(n) => {
            if n.is_empty() {
                return Err(ConfigError::MissingDatabaseName);
            }
            let mut s = "sqlite:".to_owned();
            s.append(n);
            s.append(".db");
            Ok(s)
        },
        None => Err(ConfigError::MissingDatabaseName),
    }
}

} // verus!
