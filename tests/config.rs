use finance_db::config::{connection_string, ConfigError};
use finance_db::setup::database_setup;

#[test]
fn connection_string_from_name() {
    assert_eq!(connection_string(Some("finance")), Ok("sqlite:finance.db".to_string()));
    assert_eq!(connection_string(Some("my budget")), Ok("sqlite:my budget.db".to_string()));
}

#[test]
fn missing_database_name_is_a_startup_error() {
    assert_eq!(connection_string(None), Err(ConfigError::MissingDatabaseName));
    assert!(matches!(database_setup(None), Err(ConfigError::MissingDatabaseName)));
}

#[test]
fn empty_database_name_is_a_startup_error() {
    assert_eq!(connection_string(Some("")), Err(ConfigError::MissingDatabaseName));
    assert!(matches!(database_setup(Some("")), Err(ConfigError::MissingDatabaseName)));
}

#[test]
fn setup_carries_connection_and_catalog() {
    let setup = database_setup(Some("finance")).unwrap();
    assert_eq!(setup.connection, "sqlite:finance.db");
    assert_eq!(setup.migrations.len(), 4);
    assert_eq!(setup.migrations[0].description, "create_base_table");
}
