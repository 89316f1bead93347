use finance_db::migration::{migrations, MigrationKind, LATEST_VERSION};
use finance_db::schema::{Index, SchemaOp, Table};

fn statement_head(op: &SchemaOp) -> String {
    match op {
        SchemaOp::CreateTable(t, true) => format!("CREATE TABLE IF NOT EXISTS {} (", t.name()),
        SchemaOp::CreateTable(t, false) => format!("CREATE TABLE {} (", t.name()),
        SchemaOp::DropTable(t, true) => format!("DROP TABLE IF EXISTS {};", t.name()),
        SchemaOp::DropTable(t, false) => format!("DROP TABLE {};", t.name()),
        SchemaOp::CreateIndex(i, true) => {
            format!("CREATE INDEX IF NOT EXISTS {} ON {}(", i.name(), i.table().name())
        }
        SchemaOp::CreateIndex(i, false) => format!("CREATE INDEX {} ON {}(", i.name(), i.table().name()),
        SchemaOp::DropIndex(i, true) => format!("DROP INDEX IF EXISTS {};", i.name()),
        SchemaOp::DropIndex(i, false) => format!("DROP INDEX {};", i.name()),
    }
}

#[test]
fn catalog_steps_in_version_order() {
    let c = migrations();
    let summary: Vec<(i64, &str, MigrationKind)> =
        c.iter().map(|m| (m.version, m.description, m.kind)).collect();
    assert_eq!(
        summary,
        vec![
            (1, "create_base_table", MigrationKind::Up),
            (1, "drop_base_table", MigrationKind::Down),
            (2, "add_indexes", MigrationKind::Up),
            (2, "remove_indexes", MigrationKind::Down),
        ]
    );
    assert_eq!(LATEST_VERSION, 2);
}

#[test]
fn catalog_changes_match_sql_statements() {
    for m in migrations() {
        let statements = m.sql.matches(';').count();
        assert_eq!(statements, m.changes.len(), "step {}", m.description);
        let mut from = 0;
        for op in &m.changes {
            let head = statement_head(op);
            let at = m.sql[from..].find(&head);
            assert!(at.is_some(), "{} lacks {}", m.description, head);
            from += at.unwrap() + head.len();
        }
    }
}

#[test]
fn catalog_base_table_columns() {
    let c = migrations();
    let sql = c[0].sql;
    for column in [
        "amount REAL NOT NULL",
        "category TEXT NOT NULL",
        "start_date INTEGER NOT NULL",
        "last_charged INTEGER,",
        "recurrence_value TEXT NOT NULL",
        "transaction_date INTEGER NOT NULL",
        "recurring_transaction_id INTEGER,",
        "verified INTEGER NOT NULL DEFAULT 0",
        "key TEXT NOT NULL UNIQUE",
    ] {
        assert!(sql.contains(column), "{}", column);
    }
}

#[test]
fn catalog_down_steps_drop_in_reverse_dependency_order() {
    let c = migrations();
    assert_eq!(
        c[1].changes,
        vec![
            SchemaOp::DropTable(Table::Settings, true),
            SchemaOp::DropTable(Table::Transactions, true),
            SchemaOp::DropTable(Table::RecurringTransactions, true),
        ]
    );
    assert_eq!(c[3].changes.len(), 7);
    assert!(c[3].changes.iter().all(|op| matches!(op, SchemaOp::DropIndex(_, true))));
}

#[test]
fn table_and_index_names() {
    assert_eq!(Table::RecurringTransactions.name(), "recurring_transactions");
    assert_eq!(Table::Transactions.name(), "transactions");
    assert_eq!(Table::Settings.name(), "settings");
    assert_eq!(Index::TransactionsVerified.name(), "idx_transactions_verified");
    assert_eq!(
        Index::RecurringTransactionsLastCharged.name(),
        "idx_recurring_transactions_last_charged"
    );
    assert_eq!(Index::TransactionsRecurring.table(), Table::Transactions);
    assert_eq!(Index::RecurringTransactionsDate.table(), Table::RecurringTransactions);
}
