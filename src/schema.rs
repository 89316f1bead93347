//! Tables and indexes of the store, the schema changes that migration scripts
//! make, and a model of how SQLite applies them.

use vstd::prelude::*;

verus! {

broadcast use {
    vstd::seq_lib::lemma_seq_contains_after_push,
    vstd::seq::Seq::lemma_push_to_set_commute,
};

/// A table of the store.
#[derive(Clone, Copy, Debug, PartialEq, Eq, Structural)]
pub enum Table {
    RecurringTransactions,
    Transactions,
    Settings,
}

/// An index of the store; each one is over a single column of one table.
#[derive(Clone, Copy, Debug, PartialEq, Eq, Structural)]
pub enum Index {
    TransactionsDate,
    TransactionsCategory,
    TransactionsRecurring,
    TransactionsVerified,
    RecurringTransactionsDate,
    RecurringTransactionsCategory,
    RecurringTransactionsLastCharged,
}

/// The table that an index is built on.
pub open spec fn index_table(i: Index) -> Table {
    match i {
        Index::TransactionsDate => Table::Transactions,
        Index::TransactionsCategory => Table::Transactions,
        Index::TransactionsRecurring => Table::Transactions,
        Index::TransactionsVerified => Table::Transactions,
        Index::RecurringTransactionsDate => Table::RecurringTransactions,
        Index::RecurringTransactionsCategory => Table::RecurringTransactions,
        Index::RecurringTransactionsLastCharged => Table::RecurringTransactions,
    }
}

impl Table {
    /// The table's name in SQL.
    pub fn name(&self) -> (r: &'static str)
        ensures
            r@ == table_name(*self),
    {
        match self {
            Table::RecurringTransactions => "recurring_transactions",
            Table::Transactions => "transactions",
            Table::Settings => "settings",
        }
    }
}

/// The SQL name of each table.
pub open spec fn table_name(t: Table) -> Seq<char> {
    match t {
        Table::RecurringTransactions => "recurring_transactions"@,
        Table::Transactions => "transactions"@,
        Table::Settings => "settings"@,
    }
}

/// The SQL name of each index.
pub open spec fn index_name(i: Index) -> Seq<char> {
    match i {
        Index::TransactionsDate => "idx_transactions_date"@,
        Index::TransactionsCategory => "idx_transactions_category"@,
        Index::TransactionsRecurring => "idx_transactions_recurring"@,
        Index::TransactionsVerified => "idx_transactions_verified"@,
        Index::RecurringTransactionsDate => "idx_recurring_transactions_date"@,
        Index::RecurringTransactionsCategory => "idx_recurring_transactions_category"@,
        Index::RecurringTransactionsLastCharged => "idx_recurring_transactions_last_charged"@,
    }
}

impl Index {
    /// The index's name in SQL.
    pub fn name(&self) -> (r: &'static str)
        ensures
            r@ == index_name(*self),
    {
        match self {
            Index::TransactionsDate => "idx_transactions_date",
            Index::TransactionsCategory => "idx_transactions_category",
            Index::TransactionsRecurring => "idx_transactions_recurring",
            Index::TransactionsVerified => "idx_transactions_verified",
            Index::RecurringTransactionsDate => "idx_recurring_transactions_date",
            Index::RecurringTransactionsCategory => "idx_recurring_transactions_category",
            Index::RecurringTransactionsLastCharged => "idx_recurring_transactions_last_charged",
        }
    }

    /// The table the index is built on.
    pub fn table(&self) -> (r: Table)
        ensures
            r == index_table(*self),
    {
        match self {
            Index::TransactionsDate => Table::Transactions,
            Index::TransactionsCategory => Table::Transactions,
            Index::TransactionsRecurring => Table::Transactions,
            Index::TransactionsVerified => Table::Transactions,
            Index::RecurringTransactionsDate => Table::RecurringTransactions,
            Index::RecurringTransactionsCategory => Table::RecurringTransactions,
            Index::RecurringTransactionsLastCharged => Table::RecurringTransactions,
        }
    }
}

/// One schema-changing statement of a migration script. The flag records
/// whether the statement carries an `IF NOT EXISTS` / `IF EXISTS` guard.
#[derive(Clone, Copy, Debug, PartialEq, Eq, Structural)]
pub enum SchemaOp {
    CreateTable(Table, bool),
    DropTable(Table, bool),
    CreateIndex(Index, bool),
    DropIndex(Index, bool),
}

/// Why a statement was rejected by the database.
#[derive(Clone, Copy, Debug, PartialEq, Eq, Structural)]
pub enum SchemaError {
    TableExists(Table),
    NoSuchTable(Table),
    IndexExists(Index),
    NoSuchIndex(Index),
}

/// The user tables and indexes present in a database.
pub struct SchemaState {
    pub tables: Set<Table>,
    pub indexes: Set<Index>,
}

/// A database with no user tables and no indexes.
pub open spec fn empty_schema() -> SchemaState {
    SchemaState { tables: Set::empty(), indexes: Set::empty() }
}

/// What SQLite does with one statement: a guarded statement never fails on
/// the presence or absence of its own object; dropping a table drops its
/// indexes; an index needs its table.
pub open spec fn apply_op(s: SchemaState, op: SchemaOp) -> Result<SchemaState, SchemaError> {
    match op {
        SchemaOp::CreateTable(t, guarded) => {
            if s.tables.contains(t) {
                if guarded {
                    Ok(s)
                } else {
                    Err(SchemaError::TableExists(t))
                }
            } else {
                Ok(SchemaState { tables: s.tables.insert(t), indexes: s.indexes })
            }
        },
        SchemaOp::DropTable(t, guarded) => {
            if s.tables.contains(t) {
                Ok(
                    SchemaState {
                        tables: s.tables.remove(t),
                        indexes: s.indexes.filter(|i: Index| index_table(i) != t),
                    },
                )
            } else if guarded {
                Ok(s)
            } else {
                Err(SchemaError::NoSuchTable(t))
            }
        },
        SchemaOp::CreateIndex(i, guarded) => {
            if s.indexes.contains(i) {
                if guarded {
                    Ok(s)
                } else {
                    Err(SchemaError::IndexExists(i))
                }
            } else if !s.tables.contains(index_table(i)) {
                Err(SchemaError::NoSuchTable(index_table(i)))
            } else {
                Ok(SchemaState { tables: s.tables, indexes: s.indexes.insert(i) })
            }
        },
        SchemaOp::DropIndex(i, guarded) => {
            if s.indexes.contains(i) {
                Ok(SchemaState { tables: s.tables, indexes: s.indexes.remove(i) })
            } else if guarded {
                Ok(s)
            } else {
                Err(SchemaError::NoSuchIndex(i))
            }
        },
    }
}

/// A script's statements applied in order; the first rejected one stops it.
pub open spec fn apply_script(s: SchemaState, ops: Seq<SchemaOp>) -> Result<
    SchemaState,
    SchemaError,
>
    decreases ops.len(),
{
    if ops.len() == 0 {
        Ok(s)
    } else {
        match apply_script(s, ops.drop_last()) {
            Ok(t) => apply_op(t, ops.last()),
            Err(e) => Err(e),
        }
    }
}

/// An executable schema: the tables and indexes present, without repeats.
pub struct Schema {
    tables: Vec<Table>,
    indexes: Vec<Index>,
}

impl View for Schema {
    type V = SchemaState;

    closed spec fn view(&self) -> SchemaState {
        SchemaState {
            tables: self.tables@.to_set(),
            indexes: self.indexes@.to_set(),
        }
    }
}

fn contains_table(v: &Vec<Table>, t: Table) -> (r: bool)
    ensures
        r == v@.contains(t),
{
    let mut k: usize = 0;
    while k < v.len()
        invariant
            k <= v.len(),
            forall|j: int| 0 <= j < k ==> v@[j] != t,
        decreases v.len() - k,
    {
        if v[k] == t {
            return true;
        }
        k = k + 1;
    }
    false
}

fn contains_index(v: &Vec<Index>, i: Index) -> (r: bool)
    ensures
        r == v@.contains(i),
{
    let mut k: usize = 0;
    while k < v.len()
        invariant
            k <= v.len(),
            forall|j: int| 0 <= j < k ==> v@[j] != i,
        decreases v.len() - k,
    {
        if v[k] == i {
            return true;
        }
        k = k + 1;
    }
    false
}

fn without_table(v: &Vec<Table>, t: Table) -> (r: Vec<Table>)
    ensures
        r@.to_set() == v@.to_set().remove(t),
{
    let mut r: Vec<Table> = Vec::new();
    let mut k: usize = 0;
    while k < v.len()
        invariant
            k <= v.len(),
            forall|x: Table|
                r@.contains(x) <==> (x != t && exists|j: int| 0 <= j < k && v@[j] == x),
        decreases v.len() - k,
    {
        let y = v[k];
        assert(v@[k as int] == y);
        if y != t {
            r.push(y);
            assert(r@.last() == y);
        }
        k = k + 1;
    }
    assert(r@.to_set() =~= v@.to_set().remove(t));
    r
}

fn without_index_where(v: &Vec<Index>, i: Option<Index>, t: Option<Table>) -> (r: Vec<Index>)
    ensures
        forall|x: Index|
            r@.contains(x) <==> (v@.contains(x) && Some(x) != i && Some(index_table(x)) != t),
{
    let mut r: Vec<Index> = Vec::new();
    let mut k: usize = 0;
    while k < v.len()
        invariant
            k <= v.len(),
            forall|x: Index|
                r@.contains(x) <==> ((exists|j: int| 0 <= j < k && v@[j] == x) && Some(x) != i
                    && Some(index_table(x)) != t),
        decreases v.len() - k,
    {
        let y = v[k];
        assert(v@[k as int] == y);
        let drop = match i {
            Some(j) => j == y,
            None => false,
        } || match t {
            Some(u) => u == y.table(),
            None => false,
        };
        if !drop {
            r.push(y);
            assert(r@.last() == y);
        }
        k = k + 1;
    }
    r
}

impl Schema {
    /// A database with no user tables.
    pub fn new() -> (r: Schema)
        ensures
            r@ == empty_schema(),
    {
        let r = Schema { tables: Vec::new(), indexes: Vec::new() };
        assert(r@.tables =~= Set::empty());
        assert(r@.indexes =~= Set::empty());
        r
    }

    /// Whether the table is present.
    pub fn has_table(&self, t: Table) -> (r: bool)
        ensures
            r == self@.tables.contains(t),
    {
        contains_table(&self.tables, t)
    }

    /// Whether the index is present.
    pub fn has_index(&self, i: Index) -> (r: bool)
        ensures
            r == self@.indexes.contains(i),
    {
        contains_index(&self.indexes, i)
    }

    /// Whether no user table is present.
    pub fn is_empty(&self) -> (r: bool)
        ensures
            r == (self@.tables == Set::<Table>::empty()),
    {
        if self.tables.len() == 0 {
            assert(self@.tables =~= Set::<Table>::empty());
            true
        } else {
            assert(self@.tables.contains(self.tables@[0]));
            false
        }
    }

    /// Applies one statement; a rejected statement leaves the schema as it was.
    pub fn apply_op(&mut self, op: SchemaOp) -> (r: Result<(), SchemaError>)
        ensures
            match apply_op(old(self)@, op) {
                Ok(s) => r is Ok && final(self)@ == s,
                Err(e) => r == Err::<(), SchemaError>(e) && final(self)@ == old(self)@,
            },
    {
        match op {
            SchemaOp::CreateTable(t, guarded) => {
                if contains_table(&self.tables, t) {
                    if guarded {
                        Ok(())
                    } else {
                        Err(SchemaError::TableExists(t))
                    }
                } else {
                    self.tables.push(t);
                    assert(self@.tables =~= old(self)@.tables.insert(t));
                    Ok(())
                }
            },
            SchemaOp::DropTable(t, guarded) => {
                if contains_table(&self.tables, t) {
                    let tables = without_table(&self.tables, t);
                    let indexes = without_index_where(&self.indexes, None, Some(t));
                    self.tables = tables;
                    self.indexes = indexes;
                    assert(self@.indexes =~= old(self)@.indexes.filter(
                        |i: Index| index_table(i) != t,
                    ));
                    Ok(())
                } else if guarded {
                    Ok(())
                } else {
                    Err(SchemaError::NoSuchTable(t))
                }
            },
            SchemaOp::CreateIndex(i, guarded) => {
                if contains_index(&self.indexes, i) {
                    if guarded {
                        Ok(())
                    } else {
                        Err(SchemaError::IndexExists(i))
                    }
                } else if !contains_table(&self.tables, i.table()) {
                    Err(SchemaError::NoSuchTable(i.table()))
                } else {
                    self.indexes.push(i);
                    assert(self@.indexes =~= old(self)@.indexes.insert(i));
                    Ok(())
                }
            },
            SchemaOp::DropIndex(i, guarded) => {
                if contains_index(&self.indexes, i) {
                    self.indexes = without_index_where(&self.indexes, Some(i), None);
                    assert(self@.indexes =~= old(self)@.indexes.remove(i));
                    Ok(())
                } else if guarded {
                    Ok(())
                } else {
                    Err(SchemaError::NoSuchIndex(i))
                }
            },
        }
    }

    fn duplicate(&self) -> (r: Schema)
        ensures
            r@ == self@,
    {
        let mut tables: Vec<Table> = Vec::new();
        let mut k: usize = 0;
        while k < self.tables.len()
            invariant
                k <= self.tables.len(),
                tables@ == self.tables@.subrange(0, k as int),
            decreases self.tables.len() - k,
        {
            tables.push(self.tables[k]);
            k = k + 1;
            assert(tables@ =~= self.tables@.subrange(0, k as int));
        }
        let mut indexes: Vec<Index> = Vec::new();
        let mut k: usize = 0;
        while k < self.indexes.len()
            invariant
                k <= self.indexes.len(),
                indexes@ == self.indexes@.subrange(0, k as int),
            decreases self.indexes.len() - k,
        {
            indexes.push(self.indexes[k]);
            k = k + 1;
            assert(indexes@ =~= self.indexes@.subrange(0, k as int));
        }
        assert(tables@ =~= self.tables@);
        assert(indexes@ =~= self.indexes@);
        Schema { tables, indexes }
    }

    /// Applies a script's statements in order as one unit: either all of
    /// them apply, or the first rejected one is reported and the schema is
    /// left as it was before the script.
    pub fn apply_script(&mut self, ops: &Vec<SchemaOp>) -> (r: Result<(), SchemaError>)
        ensures
            match apply_script(old(self)@, ops@) {
                Ok(s) => r is Ok && final(self)@ == s,
                Err(e) => r == Err::<(), SchemaError>(e) && final(self)@ == old(self)@,
            },
    {
        let mut work = self.duplicate();
        let mut k: usize = 0;
        while k < ops.len()
            invariant
                k <= ops.len(),
                apply_script(self@, ops@.subrange(0, k as int)) == Ok::<SchemaState, SchemaError>(
                    work@,
                ),
            decreases ops.len() - k,
        {
            assert(ops@.subrange(0, k + 1).drop_last() =~= ops@.subrange(0, k as int));
            match work.apply_op(ops[k]) {
                Ok(()) => {},
                Err(e) => {
                    proof {
                        lemma_script_error_persists(self@, ops@, k + 1);
                    }
                    return Err(e);
                },
            }
            k = k + 1;
        }
        assert(ops@.subrange(0, ops.len() as int) =~= ops@);
        *self = work;
        Ok(())
    }
}

/// Once a prefix of a script is rejected, the whole script is rejected with
/// the same error.
proof fn lemma_script_error_persists(s: SchemaState, ops: Seq<SchemaOp>, n: int)
    requires
        0 <= n <= ops.len(),
        apply_script(s, ops.subrange(0, n)) is Err,
    ensures
        apply_script(s, ops) == apply_script(s, ops.subrange(0, n)),
    decreases ops.len() - n,
{
    if n < ops.len() {
        assert(ops.subrange(0, n + 1).drop_last() =~= ops.subrange(0, n));
        lemma_script_error_persists(s, ops, n + 1);
    } else {
        assert(ops.subrange(0, n) =~= ops);
    }
}

/// Every statement of the script creates a table or an index behind an
/// `IF NOT EXISTS` guard.
pub open spec fn guarded_creates(ops: Seq<SchemaOp>) -> bool {
    forall|k: int|
        0 <= k < ops.len() ==> (#[trigger] ops[k] matches SchemaOp::CreateTable(_, true)
            || ops[k] matches SchemaOp::CreateIndex(_, true))
}

/// The object that a create statement makes is present in the schema.
pub open spec fn created_in(s: SchemaState, op: SchemaOp) -> bool {
    match op {
        SchemaOp::CreateTable(t, _) => s.tables.contains(t),
        SchemaOp::CreateIndex(i, _) => s.indexes.contains(i),
        _ => true,
    }
}

proof fn lemma_guarded_creates_cover(s: SchemaState, ops: Seq<SchemaOp>, t: SchemaState)
    requires
        guarded_creates(ops),
        apply_script(s, ops) == Ok::<SchemaState, SchemaError>(t),
    ensures
        s.tables.subset_of(t.tables),
        s.indexes.subset_of(t.indexes),
        forall|k: int| 0 <= k < ops.len() ==> created_in(t, #[trigger] ops[k]),
    decreases ops.len(),
{
    if ops.len() > 0 {
        let init = ops.drop_last();
        assert(guarded_creates(init)) by {
            assert forall|k: int| 0 <= k < init.len() implies (#[trigger] init[k] matches SchemaOp::CreateTable(_, true)
                || init[k] matches SchemaOp::CreateIndex(_, true)) by {
                assert(init[k] == ops[k]);
            }
        }
        let mid = apply_script(s, init)->Ok_0;
        lemma_guarded_creates_cover(s, init, mid);
        assert(ops[ops.len() - 1] == ops.last());
        assert forall|k: int| 0 <= k < ops.len() implies created_in(t, #[trigger] ops[k]) by {
            if k < ops.len() - 1 {
                assert(init[k] == ops[k]);
            }
        }
    }
}

proof fn lemma_guarded_creates_noop(t: SchemaState, ops: Seq<SchemaOp>)
    requires
        guarded_creates(ops),
        forall|k: int| 0 <= k < ops.len() ==> created_in(t, #[trigger] ops[k]),
    ensures
        apply_script(t, ops) == Ok::<SchemaState, SchemaError>(t),
    decreases ops.len(),
{
    if ops.len() > 0 {
        let init = ops.drop_last();
        assert forall|k: int| 0 <= k < init.len() implies (#[trigger] init[k] matches SchemaOp::CreateTable(_, true)
            || init[k] matches SchemaOp::CreateIndex(_, true)) && created_in(t, init[k]) by {
            assert(init[k] == ops[k]);
        }
        lemma_guarded_creates_noop(t, init);
        assert(ops[ops.len() - 1] == ops.last());
    }
}

/// A script whose statements all create behind an `IF NOT EXISTS` guard can
/// be applied a second time: it succeeds again and changes nothing.
pub proof fn lemma_guarded_script_reapplies(s: SchemaState, ops: Seq<SchemaOp>)
    requires
        guarded_creates(ops),
        apply_script(s, ops) is Ok,
    ensures
        apply_script(apply_script(s, ops)->Ok_0, ops) == apply_script(s, ops),
{
    let t = apply_script(s, ops)->Ok_0;
    lemma_guarded_creates_cover(s, ops, t);
    lemma_guarded_creates_noop(t, ops);
}

} // verus!
