//! The versioned catalog of migration steps, and the migrator that applies
//! them in version order.

use crate::schema::{apply_op, apply_script, empty_schema, guarded_creates, index_table, Index, Schema, SchemaError, SchemaOp, SchemaState, Table};
use vstd::prelude::*;

verus! {

/// Whether a step moves the schema forward or rolls it back.
#[derive(Clone, Copy, Debug, PartialEq, Eq, Structural)]
pub enum MigrationKind {
    Up,
    Down,
}

/// One step of the catalog: its version, a short description, its direction,
/// the SQL script handed to the database, and the schema changes that the
/// script makes, statement by statement.
pub struct Migration {
    pub version: i64,
    pub description: &'static str,
    pub sql: &'static str,
    pub kind: MigrationKind,
    pub changes: Vec<SchemaOp>,
}

pub const CREATE_BASE_TABLE_SQL: &'static str = r#"
              CREATE TABLE IF NOT EXISTS recurring_transactions (
                  id INTEGER PRIMARY KEY AUTOINCREMENT,
                  amount REAL NOT NULL,
                  description TEXT,
                  category TEXT NOT NULL,
                  start_date INTEGER NOT NULL,
                  last_charged INTEGER,
                  recurrence_value TEXT NOT NULL,
                  created_at INTEGER NOT NULL,
                  updated_at INTEGER NOT NULL
              );

              CREATE TABLE IF NOT EXISTS transactions (
                  id INTEGER PRIMARY KEY AUTOINCREMENT,
                  amount REAL NOT NULL,
                  transaction_date INTEGER NOT NULL,
                  description TEXT,
                  category TEXT NOT NULL,
                  recurring_transaction_id INTEGER,
                  verified INTEGER NOT NULL DEFAULT 0,
                  created_at INTEGER NOT NULL,
                  updated_at INTEGER NOT NULL
              );

              CREATE TABLE IF NOT EXISTS settings (
                  id INTEGER PRIMARY KEY AUTOINCREMENT,
                  key TEXT NOT NULL UNIQUE,
                  value TEXT NOT NULL,
                  created_at INTEGER NOT NULL,
                  updated_at INTEGER NOT NULL
              );
            "#;

pub const DROP_BASE_TABLE_SQL: &'static str = r#"
              DROP TABLE IF EXISTS settings;
              DROP TABLE IF EXISTS transactions;
              DROP TABLE IF EXISTS recurring_transactions;
            "#;

pub const ADD_INDEXES_SQL: &'static str = r#"
              CREATE INDEX idx_transactions_date ON transactions(transaction_date);
              CREATE INDEX idx_transactions_category ON transactions(category);
              CREATE INDEX idx_transactions_recurring ON transactions(recurring_transaction_id);
              CREATE INDEX idx_transactions_verified ON transactions(verified);
              CREATE INDEX idx_recurring_transactions_date ON recurring_transactions(start_date);
              CREATE INDEX idx_recurring_transactions_category ON recurring_transactions(category);
              CREATE INDEX idx_recurring_transactions_last_charged ON recurring_transactions(last_charged);
            "#;

pub const REMOVE_INDEXES_SQL: &'static str = r#"
              DROP INDEX IF EXISTS idx_transactions_date;
              DROP INDEX IF EXISTS idx_transactions_category;
              DROP INDEX IF EXISTS idx_transactions_recurring;
              DROP INDEX IF EXISTS idx_transactions_verified;
              DROP INDEX IF EXISTS idx_recurring_transactions_date;
              DROP INDEX IF EXISTS idx_recurring_transactions_category;
              DROP INDEX IF EXISTS idx_recurring_transactions_last_charged;
            "#;

/// Statements of the step that creates the base tables.
pub open spec fn create_base_table_changes() -> Seq<SchemaOp> {
    seq![
        SchemaOp::CreateTable(Table::RecurringTransactions, true),
        SchemaOp::CreateTable(Table::Transactions, true),
        SchemaOp::CreateTable(Table::Settings, true),
    ]
}

/// Statements of the step that drops the base tables, dependents first.
pub open spec fn drop_base_table_changes() -> Seq<SchemaOp> {
    seq![
        SchemaOp::DropTable(Table::Settings, true),
        SchemaOp::DropTable(Table::Transactions, true),
        SchemaOp::DropTable(Table::RecurringTransactions, true),
    ]
}

/// Statements of the step that adds the indexes (without guards).
pub open spec fn add_indexes_changes() -> Seq<SchemaOp> {
    seq![
        SchemaOp::CreateIndex(Index::TransactionsDate, false),
        SchemaOp::CreateIndex(Index::TransactionsCategory, false),
        SchemaOp::CreateIndex(Index::TransactionsRecurring, false),
        SchemaOp::CreateIndex(Index::TransactionsVerified, false),
        SchemaOp::CreateIndex(Index::RecurringTransactionsDate, false),
        SchemaOp::CreateIndex(Index::RecurringTransactionsCategory, false),
        SchemaOp::CreateIndex(Index::RecurringTransactionsLastCharged, false),
    ]
}

/// Statements of the step that removes the indexes.
pub open spec fn remove_indexes_changes() -> Seq<SchemaOp> {
    seq![
        SchemaOp::DropIndex(Index::TransactionsDate, true),
        SchemaOp::DropIndex(Index::TransactionsCategory, true),
        SchemaOp::DropIndex(Index::TransactionsRecurring, true),
        SchemaOp::DropIndex(Index::TransactionsVerified, true),
        SchemaOp::DropIndex(Index::RecurringTransactionsDate, true),
        SchemaOp::DropIndex(Index::RecurringTransactionsCategory, true),
        SchemaOp::DropIndex(Index::RecurringTransactionsLastCharged, true),
    ]
}

/// The highest schema version of the catalog.
pub const LATEST_VERSION: i64 = 2;

/// The catalog: for each version an Up step and its Down step, in ascending
/// version order.
pub open spec fn is_catalog(c: Seq<Migration>) -> bool {
    &&& c.len() == 4
    &&& c[0].version == 1 && c[0].kind == MigrationKind::Up
    &&& c[0].description@ == "create_base_table"@ && c[0].sql == CREATE_BASE_TABLE_SQL
    &&& c[0].changes@ == create_base_table_changes()
    &&& c[1].version == 1 && c[1].kind == MigrationKind::Down
    &&& c[1].description@ == "drop_base_table"@ && c[1].sql == DROP_BASE_TABLE_SQL
    &&& c[1].changes@ == drop_base_table_changes()
    &&& c[2].version == 2 && c[2].kind == MigrationKind::Up
    &&& c[2].description@ == "add_indexes"@ && c[2].sql == ADD_INDEXES_SQL
    &&& c[2].changes@ == add_indexes_changes()
    &&& c[3].version == 2 && c[3].kind == MigrationKind::Down
    &&& c[3].description@ == "remove_indexes"@ && c[3].sql == REMOVE_INDEXES_SQL
    &&& c[3].changes@ == remove_indexes_changes()
}

/// The migration catalog of the store.
pub fn migrations() -> (r: Vec<Migration>)
    ensures
        is_catalog(r@),
{
    let c: Vec<Migration> = vec![
        Migration {
            version: 1,
            description: "create_base_table",
            sql: CREATE_BASE_TABLE_SQL,
            kind: MigrationKind::Up,
            changes: vec![
                SchemaOp::CreateTable(Table::RecurringTransactions, true),
                SchemaOp::CreateTable(Table::Transactions, true),
                SchemaOp::CreateTable(Table::Settings, true),
            ],
        },
        Migration {
            version: 1,
            description: "drop_base_table",
            sql: DROP_BASE_TABLE_SQL,
            kind: MigrationKind::Down,
            changes: vec![
                SchemaOp::DropTable(Table::Settings, true),
                SchemaOp::DropTable(Table::Transactions, true),
                SchemaOp::DropTable(Table::RecurringTransactions, true),
            ],
        },
        Migration {
            version: 2,
            description: "add_indexes",
            sql: ADD_INDEXES_SQL,
            kind: MigrationKind::Up,
            changes: vec![
                SchemaOp::CreateIndex(Index::TransactionsDate, false),
                SchemaOp::CreateIndex(Index::TransactionsCategory, false),
                SchemaOp::CreateIndex(Index::TransactionsRecurring, false),
                SchemaOp::CreateIndex(Index::TransactionsVerified, false),
                SchemaOp::CreateIndex(Index::RecurringTransactionsDate, false),
                SchemaOp::CreateIndex(Index::RecurringTransactionsCategory, false),
                SchemaOp::CreateIndex(Index::RecurringTransactionsLastCharged, false),
            ],
        },
        Migration {
            version: 2,
            description: "remove_indexes",
            sql: REMOVE_INDEXES_SQL,
            kind: MigrationKind::Down,
            changes: vec![
                SchemaOp::DropIndex(Index::TransactionsDate, true),
                SchemaOp::DropIndex(Index::TransactionsCategory, true),
                SchemaOp::DropIndex(Index::TransactionsRecurring, true),
                SchemaOp::DropIndex(Index::TransactionsVerified, true),
                SchemaOp::DropIndex(Index::RecurringTransactionsDate, true),
                SchemaOp::DropIndex(Index::RecurringTransactionsCategory, true),
                SchemaOp::DropIndex(Index::RecurringTransactionsLastCharged, true),
            ],
        },
    ];
    assert(c@[0].changes@ =~= create_base_table_changes());
    assert(c@[1].changes@ =~= drop_base_table_changes());
    assert(c@[2].changes@ =~= add_indexes_changes());
    assert(c@[3].changes@ =~= remove_indexes_changes());
    c
}

/// The step that stopped a run, and what the database said.
#[derive(Clone, Copy, Debug, PartialEq, Eq)]
pub struct MigrationFailure {
    pub version: i64,
    pub description: &'static str,
    pub error: SchemaError,
}

/// How a run ends: with the schema reached, or with the failing step and the
/// schema left by the steps before it.
pub enum RunOutcome {
    Done(SchemaState),
    Failed(MigrationFailure, SchemaState),
}

/// A step taken when moving up from version `from` to version `to`.
pub open spec fn selected_up(m: Migration, from: int, to: int) -> bool {
    m.kind == MigrationKind::Up && from < m.version <= to
}

/// A step taken when rolling back from version `from` to version `to`.
pub open spec fn selected_down(m: Migration, from: int, to: int) -> bool {
    m.kind == MigrationKind::Down && to < m.version <= from
}

/// One step applied after the steps before it; a failed run stays failed.
pub open spec fn run_step(prev: RunOutcome, m: Migration, taken: bool) -> RunOutcome {
    match prev {
        RunOutcome::Done(t) => {
            if taken {
                match apply_script(t, m.changes@) {
                    Ok(u) => RunOutcome::Done(u),
                    Err(e) => RunOutcome::Failed(
                        MigrationFailure { version: m.version, description: m.description, error: e },
                        t,
                    ),
                }
            } else {
                RunOutcome::Done(t)
            }
        },
        RunOutcome::Failed(f, t) => RunOutcome::Failed(f, t),
    }
}

/// The Up steps between the two versions, applied in catalog order, each as
/// one unit.
pub open spec fn run_up(s: SchemaState, c: Seq<Migration>, from: int, to: int) -> RunOutcome
    decreases c.len(),
{
    if c.len() == 0 {
        RunOutcome::Done(s)
    } else {
        run_step(run_up(s, c.drop_last(), from, to), c.last(), selected_up(c.last(), from, to))
    }
}

/// The Down steps between the two versions, applied in reverse catalog order,
/// each as one unit.
pub open spec fn run_down(s: SchemaState, c: Seq<Migration>, from: int, to: int) -> RunOutcome
    decreases c.len(),
{
    if c.len() == 0 {
        RunOutcome::Done(s)
    } else {
        run_step(run_down(s, c.drop_first(), from, to), c[0], selected_down(c[0], from, to))
    }
}

/// What a run hands back and leaves behind, against its outcome.
pub open spec fn run_matches(
    outcome: RunOutcome,
    r: Result<(), MigrationFailure>,
    schema: SchemaState,
) -> bool {
    match outcome {
        RunOutcome::Done(t) => r is Ok && schema == t,
        RunOutcome::Failed(f, t) => r == Err::<(), MigrationFailure>(f) && schema == t,
    }
}

/// One step of a run: applied when taken and nothing has failed yet.
fn take_step(
    schema: &mut Schema,
    failure: &mut Option<MigrationFailure>,
    m: &Migration,
    taken: bool,
)
    ensures
        run_matches(
            run_step(
                match *old(failure) {
                    None => RunOutcome::Done(old(schema)@),
                    Some(f) => RunOutcome::Failed(f, old(schema)@),
                },
                *m,
                taken,
            ),
            match *final(failure) {
                None => Ok(()),
                Some(f) => Err(f),
            },
            final(schema)@,
        ),
{
    if failure.is_none() && taken {
        match schema.apply_script(&m.changes) {
            Ok(()) => {},
            Err(e) => {
                *failure = Some(
                    MigrationFailure { version: m.version, description: m.description, error: e },
                );
            },
        }
    }
}

/// Applies every Up step with `from < version <= to`, in catalog order. A
/// failing step stops the run: the schema is left as the steps before it
/// made it, and the step is reported.
pub fn migrate_up(schema: &mut Schema, catalog: &Vec<Migration>, from: i64, to: i64) -> (r: Result<
    (),
    MigrationFailure,
>)
    ensures
        run_matches(run_up(old(schema)@, catalog@, from as int, to as int), r, final(schema)@),
{
    let mut failure: Option<MigrationFailure> = None;
    let mut i: usize = 0;
    while i < catalog.len()
        invariant
            i <= catalog.len(),
            run_matches(
                run_up(old(schema)@, catalog@.subrange(0, i as int), from as int, to as int),
                match failure {
                    None => Ok(()),
                    Some(f) => Err(f),
                },
                schema@,
            ),
        decreases catalog.len() - i,
    {
        let m = &catalog[i];
        let taken = m.kind == MigrationKind::Up && from < m.version && m.version <= to;
        assert(catalog@.subrange(0, i + 1).drop_last() =~= catalog@.subrange(0, i as int));
        take_step(schema, &mut failure, m, taken);
        i = i + 1;
    }
    assert(catalog@.subrange(0, catalog.len() as int) =~= catalog@);
    match failure {
        None => Ok(()),
        Some(f) => Err(f),
    }
}

/// Applies every Down step with `to < version <= from`, in reverse catalog
/// order. A failing step stops the run: the schema is left as the steps
/// before it made it, and the step is reported.
pub fn migrate_down(schema: &mut Schema, catalog: &Vec<Migration>, from: i64, to: i64) -> (r:
    Result<(), MigrationFailure>)
    ensures
        run_matches(run_down(old(schema)@, catalog@, from as int, to as int), r, final(schema)@),
{
    let mut failure: Option<MigrationFailure> = None;
    let mut i: usize = catalog.len();
    assert(catalog@.subrange(i as int, catalog.len() as int).len() == 0);
    while i > 0
        invariant
            i <= catalog.len(),
            run_matches(
                run_down(
                    old(schema)@,
                    catalog@.subrange(i as int, catalog.len() as int),
                    from as int,
                    to as int,
                ),
                match failure {
                    None => Ok(()),
                    Some(f) => Err(f),
                },
                schema@,
            ),
        decreases i,
    {
        i = i - 1;
        let m = &catalog[i];
        let taken = m.kind == MigrationKind::Down && to < m.version && m.version <= from;
        assert(catalog@.subrange(i as int, catalog.len() as int).drop_first() =~= catalog@.subrange(
            i + 1,
            catalog.len() as int,
        ));
        take_step(schema, &mut failure, m, taken);
    }
    assert(catalog@.subrange(0, catalog.len() as int) =~= catalog@);
    match failure {
        None => Ok(()),
        Some(f) => Err(f),
    }
}

/// The three base tables, without indexes.
pub open spec fn base_schema() -> SchemaState {
    SchemaState {
        tables: Set::empty().insert(Table::RecurringTransactions).insert(Table::Transactions).insert(
            Table::Settings,
        ),
        indexes: Set::empty(),
    }
}

/// The three base tables with all seven indexes.
pub open spec fn indexed_schema() -> SchemaState {
    SchemaState {
        tables: base_schema().tables,
        indexes: Set::empty().insert(Index::TransactionsDate).insert(
            Index::TransactionsCategory,
        ).insert(Index::TransactionsRecurring).insert(Index::TransactionsVerified).insert(
            Index::RecurringTransactionsDate,
        ).insert(Index::RecurringTransactionsCategory).insert(
            Index::RecurringTransactionsLastCharged,
        ),
    }
}

proof fn lemma_script_push(s: SchemaState, ops: Seq<SchemaOp>, op: SchemaOp)
    ensures
        apply_script(s, ops.push(op)) == match apply_script(s, ops) {
            Ok(t) => apply_op(t, op),
            Err(e) => Err(e),
        },
{
    assert(ops.push(op).drop_last() =~= ops);
}

proof fn lemma_create_base_table(s: SchemaState)
    requires
        s == empty_schema() || s.tables == base_schema().tables,
    ensures
        s == empty_schema() ==> apply_script(s, create_base_table_changes()) == Ok::<
            SchemaState,
            SchemaError,
        >(base_schema()),
        s.tables == base_schema().tables ==> apply_script(s, create_base_table_changes()) == Ok::<
            SchemaState,
            SchemaError,
        >(s),
{
    let ops = create_base_table_changes();
    let e = Seq::<SchemaOp>::empty();
    assert(ops =~= e.push(ops[0]).push(ops[1]).push(ops[2]));
    lemma_script_push(s, e, ops[0]);
    lemma_script_push(s, e.push(ops[0]), ops[1]);
    lemma_script_push(s, e.push(ops[0]).push(ops[1]), ops[2]);
}

proof fn lemma_drop_base_table()
    ensures
        apply_script(base_schema(), drop_base_table_changes()) == Ok::<SchemaState, SchemaError>(
            empty_schema(),
        ),
{
    let ops = drop_base_table_changes();
    let e = Seq::<SchemaOp>::empty();
    let s0 = base_schema();
    assert(ops =~= e.push(ops[0]).push(ops[1]).push(ops[2]));
    lemma_script_push(s0, e, ops[0]);
    lemma_script_push(s0, e.push(ops[0]), ops[1]);
    lemma_script_push(s0, e.push(ops[0]).push(ops[1]), ops[2]);
    let s1 = SchemaState { tables: s0.tables.remove(Table::Settings), indexes: Set::empty() };
    let s2 = SchemaState { tables: s1.tables.remove(Table::Transactions), indexes: Set::empty() };
    assert(apply_op(s0, ops[0]) == Ok::<SchemaState, SchemaError>(s1)) by {
        assert(s0.indexes.filter(|i: Index| index_table(i) != Table::Settings) =~= Set::empty());
    }
    assert(apply_op(s1, ops[1]) == Ok::<SchemaState, SchemaError>(s2)) by {
        assert(s1.indexes.filter(|i: Index| index_table(i) != Table::Transactions) =~= Set::empty());
    }
    assert(apply_op(s2, ops[2]) == Ok::<SchemaState, SchemaError>(empty_schema())) by {
        assert(s2.tables.remove(Table::RecurringTransactions) =~= Set::empty());
        assert(s2.indexes.filter(|i: Index| index_table(i) != Table::RecurringTransactions)
            =~= Set::empty());
    }
}

proof fn lemma_add_indexes(s: SchemaState)
    requires
        s == base_schema() || s == indexed_schema(),
    ensures
        s == base_schema() ==> apply_script(s, add_indexes_changes()) == Ok::<
            SchemaState,
            SchemaError,
        >(indexed_schema()),
        s == indexed_schema() ==> apply_script(s, add_indexes_changes()) == Err::<
            SchemaState,
            SchemaError,
        >(SchemaError::IndexExists(Index::TransactionsDate)),
{
    let ops = add_indexes_changes();
    let e = Seq::<SchemaOp>::empty();
    assert(ops =~= e.push(ops[0]).push(ops[1]).push(ops[2]).push(ops[3]).push(ops[4]).push(
        ops[5],
    ).push(ops[6]));
    lemma_script_push(s, e, ops[0]);
    lemma_script_push(s, e.push(ops[0]), ops[1]);
    lemma_script_push(s, e.push(ops[0]).push(ops[1]), ops[2]);
    lemma_script_push(s, e.push(ops[0]).push(ops[1]).push(ops[2]), ops[3]);
    lemma_script_push(s, e.push(ops[0]).push(ops[1]).push(ops[2]).push(ops[3]), ops[4]);
    lemma_script_push(s, e.push(ops[0]).push(ops[1]).push(ops[2]).push(ops[3]).push(ops[4]), ops[5]);
    lemma_script_push(
        s,
        e.push(ops[0]).push(ops[1]).push(ops[2]).push(ops[3]).push(ops[4]).push(ops[5]),
        ops[6],
    );
}

proof fn lemma_remove_indexes()
    ensures
        apply_script(indexed_schema(), remove_indexes_changes()) == Ok::<SchemaState, SchemaError>(
            base_schema(),
        ),
{
    let ops = remove_indexes_changes();
    let e = Seq::<SchemaOp>::empty();
    let s = indexed_schema();
    assert(ops =~= e.push(ops[0]).push(ops[1]).push(ops[2]).push(ops[3]).push(ops[4]).push(
        ops[5],
    ).push(ops[6]));
    lemma_script_push(s, e, ops[0]);
    lemma_script_push(s, e.push(ops[0]), ops[1]);
    lemma_script_push(s, e.push(ops[0]).push(ops[1]), ops[2]);
    lemma_script_push(s, e.push(ops[0]).push(ops[1]).push(ops[2]), ops[3]);
    lemma_script_push(s, e.push(ops[0]).push(ops[1]).push(ops[2]).push(ops[3]), ops[4]);
    lemma_script_push(s, e.push(ops[0]).push(ops[1]).push(ops[2]).push(ops[3]).push(ops[4]), ops[5]);
    lemma_script_push(
        s,
        e.push(ops[0]).push(ops[1]).push(ops[2]).push(ops[3]).push(ops[4]).push(ops[5]),
        ops[6],
    );
    assert(s.indexes.remove(ops[0]->0).remove(ops[1]->0).remove(ops[2]->0).remove(ops[3]->0).remove(
        ops[4]->0,
    ).remove(ops[5]->0).remove(ops[6]->0) =~= Set::empty());
}

/// The schema that the catalog's Up steps build on a fresh database, for each
/// version of the catalog.
pub open spec fn schema_at(v: int) -> SchemaState {
    if v <= 0 {
        empty_schema()
    } else if v == 1 {
        base_schema()
    } else {
        indexed_schema()
    }
}

/// Moving a fresh database up to any version of the catalog succeeds and
/// builds that version's schema; rolling it back down to version 0 then
/// succeeds too and leaves no user table and no index.
pub proof fn lemma_up_then_down_round_trip(c: Seq<Migration>, v: int)
    requires
        is_catalog(c),
        0 <= v <= LATEST_VERSION,
    ensures
        run_up(empty_schema(), c, 0, v) == RunOutcome::Done(schema_at(v)),
        run_down(schema_at(v), c, v, 0) == RunOutcome::Done(empty_schema()),
{
    reveal_with_fuel(run_up, 5);
    reveal_with_fuel(run_down, 5);
    let d1 = c.drop_last();
    let d2 = d1.drop_last();
    let d3 = d2.drop_last();
    assert(d3.drop_last().len() == 0);
    let f1 = c.drop_first();
    let f2 = f1.drop_first();
    let f3 = f2.drop_first();
    assert(f3.drop_first().len() == 0);
    lemma_create_base_table(empty_schema());
    lemma_add_indexes(base_schema());
    lemma_remove_indexes();
    lemma_drop_base_table();
}

/// Migrating a fresh database up to the latest version twice in succession
/// succeeds both times; the second run, which starts from the version the
/// first one reached, changes nothing. The base step alone, whose statements
/// are all guarded, can even be applied again as it stands.
pub proof fn lemma_up_twice_succeeds(c: Seq<Migration>)
    requires
        is_catalog(c),
    ensures
        run_up(empty_schema(), c, 0, LATEST_VERSION as int) == RunOutcome::Done(indexed_schema()),
        run_up(indexed_schema(), c, LATEST_VERSION as int, LATEST_VERSION as int)
            == RunOutcome::Done(indexed_schema()),
        guarded_creates(c[0].changes@),
        apply_script(base_schema(), c[0].changes@) == Ok::<SchemaState, SchemaError>(
            base_schema(),
        ),
{
    reveal_with_fuel(run_up, 5);
    lemma_up_then_down_round_trip(c, LATEST_VERSION as int);
    let d1 = c.drop_last();
    let d2 = d1.drop_last();
    let d3 = d2.drop_last();
    assert(d3.drop_last().len() == 0);
    lemma_create_base_table(base_schema());
}

/// The index step has no guards: running the Up steps again from version 0
/// on a database already at the latest version stops at that step, on its
/// first index, and leaves the schema as it was.
pub proof fn lemma_rerun_from_zero_stops_at_indexes(c: Seq<Migration>)
    requires
        is_catalog(c),
    ensures
        run_up(indexed_schema(), c, 0, LATEST_VERSION as int) == RunOutcome::Failed(
            MigrationFailure {
                version: 2,
                description: c[2].description,
                error: SchemaError::IndexExists(Index::TransactionsDate),
            },
            indexed_schema(),
        ),
{
    reveal_with_fuel(run_up, 5);
    let d1 = c.drop_last();
    let d2 = d1.drop_last();
    let d3 = d2.drop_last();
    assert(d3.drop_last().len() == 0);
    lemma_create_base_table(indexed_schema());
    lemma_add_indexes(indexed_schema());
}

/// Rolling back from the latest version to version 1 removes every index and
/// keeps the three tables.
pub proof fn lemma_rollback_to_base(c: Seq<Migration>)
    requires
        is_catalog(c),
    ensures
        run_down(indexed_schema(), c, LATEST_VERSION as int, 1) == RunOutcome::Done(base_schema()),
        base_schema().indexes.is_empty(),
{
    reveal_with_fuel(run_down, 5);
    let f1 = c.drop_first();
    let f2 = f1.drop_first();
    let f3 = f2.drop_first();
    assert(f3.drop_first().len() == 0);
    lemma_remove_indexes();
}

} // verus!
