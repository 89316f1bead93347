use finance_db::migration::{
    migrate_down, migrate_up, migrations, Migration, MigrationFailure, MigrationKind, LATEST_VERSION,
};
use finance_db::schema::{Index, Schema, SchemaError, SchemaOp, Table};

const TABLES: [Table; 3] = [Table::RecurringTransactions, Table::Transactions, Table::Settings];
const INDEXES: [Index; 7] = [
    Index::TransactionsDate,
    Index::TransactionsCategory,
    Index::TransactionsRecurring,
    Index::TransactionsVerified,
    Index::RecurringTransactionsDate,
    Index::RecurringTransactionsCategory,
    Index::RecurringTransactionsLastCharged,
];

fn tables_of(s: &Schema) -> Vec<Table> {
    TABLES.iter().copied().filter(|t| s.has_table(*t)).collect()
}

fn indexes_of(s: &Schema) -> Vec<Index> {
    INDEXES.iter().copied().filter(|i| s.has_index(*i)).collect()
}

#[test]
fn up_then_down_leaves_no_tables_for_every_version() {
    let c = migrations();
    for v in 0..=LATEST_VERSION {
        let mut s = Schema::new();
        assert_eq!(migrate_up(&mut s, &c, 0, v), Ok(()));
        assert_eq!(s.is_empty(), v == 0);
        assert_eq!(migrate_down(&mut s, &c, v, 0), Ok(()));
        assert!(s.is_empty());
        assert!(indexes_of(&s).is_empty());
    }
}

#[test]
fn up_twice_in_succession_does_not_fail() {
    let c = migrations();
    let mut s = Schema::new();
    assert_eq!(migrate_up(&mut s, &c, 0, LATEST_VERSION), Ok(()));
    assert_eq!(migrate_up(&mut s, &c, LATEST_VERSION, LATEST_VERSION), Ok(()));
    assert_eq!(tables_of(&s), TABLES.to_vec());
    assert_eq!(indexes_of(&s), INDEXES.to_vec());
    // the guarded base step applies again as it stands
    assert_eq!(s.apply_script(&c[0].changes), Ok(()));
    assert_eq!(tables_of(&s), TABLES.to_vec());
}

#[test]
fn rerun_from_zero_stops_at_unguarded_indexes() {
    let c = migrations();
    let mut s = Schema::new();
    assert_eq!(migrate_up(&mut s, &c, 0, LATEST_VERSION), Ok(()));
    let r = migrate_up(&mut s, &c, 0, LATEST_VERSION);
    assert_eq!(
        r,
        Err(MigrationFailure {
            version: 2,
            description: "add_indexes",
            error: SchemaError::IndexExists(Index::TransactionsDate),
        })
    );
    assert_eq!(indexes_of(&s), INDEXES.to_vec());
}

#[test]
fn latest_schema_tables_and_indexes_then_rollback_to_one() {
    let setup = finance_db::setup::database_setup(Some("finance")).unwrap();
    assert_eq!(setup.connection, "sqlite:finance.db");
    let mut s = Schema::new();
    assert_eq!(migrate_up(&mut s, &setup.migrations, 0, 2), Ok(()));
    assert_eq!(tables_of(&s), TABLES.to_vec());
    assert_eq!(indexes_of(&s), INDEXES.to_vec());
    assert_eq!(migrate_down(&mut s, &setup.migrations, 2, 1), Ok(()));
    assert_eq!(tables_of(&s), TABLES.to_vec());
    assert!(indexes_of(&s).is_empty());
}

#[test]
fn up_to_one_creates_tables_without_indexes() {
    let c = migrations();
    let mut s = Schema::new();
    assert_eq!(migrate_up(&mut s, &c, 0, 1), Ok(()));
    assert_eq!(tables_of(&s), TABLES.to_vec());
    assert!(indexes_of(&s).is_empty());
    assert_eq!(migrate_up(&mut s, &c, 1, 2), Ok(()));
    assert_eq!(indexes_of(&s), INDEXES.to_vec());
}

#[test]
fn failing_step_leaves_last_completed_schema() {
    let mut c = migrations();
    c.push(Migration {
        version: 3,
        description: "broken",
        sql: "CREATE TABLE settings (id INTEGER); CREATE INDEX idx_transactions_date ON transactions(transaction_date);",
        kind: MigrationKind::Up,
        changes: vec![SchemaOp::CreateIndex(Index::TransactionsDate, true), SchemaOp::CreateTable(Table::Settings, false)],
    });
    let mut s = Schema::new();
    let r = migrate_up(&mut s, &c, 0, 3);
    assert_eq!(
        r,
        Err(MigrationFailure {
            version: 3,
            description: "broken",
            error: SchemaError::TableExists(Table::Settings),
        })
    );
    assert_eq!(tables_of(&s), TABLES.to_vec());
    assert_eq!(indexes_of(&s), INDEXES.to_vec());
}

#[test]
fn schema_op_errors() {
    let mut s = Schema::new();
    assert_eq!(
        s.apply_op(SchemaOp::DropTable(Table::Settings, false)),
        Err(SchemaError::NoSuchTable(Table::Settings))
    );
    assert_eq!(s.apply_op(SchemaOp::DropTable(Table::Settings, true)), Ok(()));
    assert_eq!(
        s.apply_op(SchemaOp::CreateIndex(Index::TransactionsDate, false)),
        Err(SchemaError::NoSuchTable(Table::Transactions))
    );
    assert_eq!(
        s.apply_op(SchemaOp::DropIndex(Index::TransactionsDate, false)),
        Err(SchemaError::NoSuchIndex(Index::TransactionsDate))
    );
    assert_eq!(s.apply_op(SchemaOp::CreateTable(Table::Transactions, false)), Ok(()));
    assert_eq!(
        s.apply_op(SchemaOp::CreateTable(Table::Transactions, false)),
        Err(SchemaError::TableExists(Table::Transactions))
    );
    assert_eq!(s.apply_op(SchemaOp::CreateIndex(Index::TransactionsDate, false)), Ok(()));
    assert_eq!(
        s.apply_op(SchemaOp::CreateIndex(Index::TransactionsDate, false)),
        Err(SchemaError::IndexExists(Index::TransactionsDate))
    );
    assert_eq!(s.apply_op(SchemaOp::CreateIndex(Index::TransactionsDate, true)), Ok(()));
    // dropping a table drops its indexes
    assert_eq!(s.apply_op(SchemaOp::DropTable(Table::Transactions, false)), Ok(()));
    assert!(!s.has_index(Index::TransactionsDate));
    assert!(s.is_empty());
}

#[test]
fn failing_script_changes_nothing() {
    let mut s = Schema::new();
    let script = vec![
        SchemaOp::CreateTable(Table::Settings, true),
        SchemaOp::DropIndex(Index::TransactionsCategory, false),
    ];
    assert_eq!(
        s.apply_script(&script),
        Err(SchemaError::NoSuchIndex(Index::TransactionsCategory))
    );
    assert!(s.is_empty());
}
