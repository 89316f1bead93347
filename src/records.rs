//! Rows of the store: recurring rules, the transactions generated from them,
//! and the key/value settings table.

use vstd::prelude::*;

verus! {

/// A recurring rule: a template from which transactions are generated over
/// time. Dates and timestamps are epoch-based integers. The amount is carried
/// as the caller stores it and never inspected here.
pub struct RecurringTransaction<A> {
    pub id: i64,
    pub amount: A,
    pub description: Option<String>,
    pub category: String,
    pub start_date: i64,
    pub last_charged: Option<i64>,
    pub recurrence_value: String,
    pub created_at: i64,
    pub updated_at: i64,
}

/// A transaction row about to be inserted; the database assigns its id.
pub struct NewTransaction<A> {
    pub amount: A,
    pub transaction_date: i64,
    pub description: Option<String>,
    pub category: String,
    pub recurring_transaction_id: Option<i64>,
    pub verified: bool,
    pub created_at: i64,
    pub updated_at: i64,
}

/// The instance of a recurring rule charged on `transaction_date`, created at
/// `now`: it carries the rule's id, amount, description and category, and
/// starts unverified.
pub fn generate_transaction<A: Copy>(
    rule: &RecurringTransaction<A>,
    transaction_date: i64,
    now: i64,
) -> (t: NewTransaction<A>)
    ensures
        t.recurring_transaction_id == Some(rule.id),
        t.category == rule.category,
        t.amount == rule.amount,
        t.description == rule.description,
        t.transaction_date == transaction_date,
        !t.verified,
        t.created_at == now,
        t.updated_at == now,
{
    let description = match &rule.description {
        Some(d) => Some(d.clone()),
        None => None,
    };
    NewTransaction {
        amount: rule.amount,
        transaction_date,
        description,
        category: rule.category.clone(),
        recurring_transaction_id: Some(rule.id),
        verified: false,
        created_at: now,
        updated_at: now,
    }
}

/// One row of the settings table.
pub struct Setting {
    pub id: i64,
    pub key: String,
    pub value: String,
    pub created_at: i64,
    pub updated_at: i64,
}

/// A settings row as plain values.
pub struct SettingRow {
    pub id: int,
    pub key: Seq<char>,
    pub value: Seq<char>,
    pub created_at: int,
    pub updated_at: int,
}

impl View for Setting {
    type V = SettingRow;

    open spec fn view(&self) -> SettingRow {
        SettingRow {
            id: self.id as int,
            key: self.key@,
            value: self.value@,
            created_at: self.created_at as int,
            updated_at: self.updated_at as int,
        }
    }
}

/// No two rows share a key.
pub open spec fn keys_unique(rows: Seq<SettingRow>) -> bool {
    forall|i: int, j: int|
        0 <= i < rows.len() && 0 <= j < rows.len() && #[trigger] rows[i].key == #[trigger] rows[j].key
            ==> i == j
}

/// Some row has the key.
pub open spec fn has_key(rows: Seq<SettingRow>, key: Seq<char>) -> bool {
    exists|i: int| 0 <= i < rows.len() && #[trigger] rows[i].key == key
}

/// The rows after setting `key` to `value` at time `now`: the row with that
/// key gets the new value and update time; without one, a row with id
/// `next_id` is appended.
pub open spec fn upsert_rows(
    rows: Seq<SettingRow>,
    next_id: int,
    key: Seq<char>,
    value: Seq<char>,
    now: int,
) -> Seq<SettingRow> {
    if has_key(rows, key) {
        let i = choose|i: int| 0 <= i < rows.len() && #[trigger] rows[i].key == key;
        rows.update(
            i,
            SettingRow {
                id: rows[i].id,
                key,
                value,
                created_at: rows[i].created_at,
                updated_at: now,
            },
        )
    } else {
        rows.push(SettingRow { id: next_id, key, value, created_at: now, updated_at: now })
    }
}

/// Why a setting could not be stored.
#[derive(Clone, Copy, Debug, PartialEq, Eq, Structural)]
pub enum SettingsError {
    /// A new row is needed and every row id has been used.
    IdsExhausted,
}

/// The settings table: a key/value store whose keys are unique.
pub struct Settings {
    rows: Vec<Setting>,
    next_id: i64,
}

impl View for Settings {
    type V = Seq<SettingRow>;

    closed spec fn view(&self) -> Seq<SettingRow> {
        self.rows@.map_values(|s: Setting| s@)
    }
}

impl Settings {
    /// The id that the next new row gets.
    pub closed spec fn spec_next_id(&self) -> int {
        self.next_id as int
    }

    /// Keys are unique and every row id is below the next one.
    pub closed spec fn wf(&self) -> bool {
        &&& keys_unique(self@)
        &&& 1 <= self.next_id
        &&& forall|i: int| 0 <= i < self@.len() ==> #[trigger] self@[i].id < self.next_id
    }

    /// An empty table whose first row gets id 1.
    pub fn new() -> (r: Settings)
        ensures
            r.wf(),
            r@ == Seq::<SettingRow>::empty(),
            r.spec_next_id() == 1,
    {
        let r = Settings { rows: Vec::new(), next_id: 1 };
        assert(r@ =~= Seq::<SettingRow>::empty());
        r
    }

    /// The number of rows.
    pub fn len(&self) -> (r: usize)
        ensures
            r == self@.len(),
    {
        self.rows.len()
    }

    fn find(&self, key: &String) -> (r: Option<usize>)
        requires
            self.wf(),
        ensures
            match r {
                Some(i) => i < self@.len() && self@[i as int].key == key@,
                None => !has_key(self@, key@),
            },
    {
        let mut i: usize = 0;
        while i < self.rows.len()
            invariant
                i <= self.rows.len(),
                forall|j: int| 0 <= j < i ==> #[trigger] self@[j].key != key@,
            decreases self.rows.len() - i,
        {
            if self.rows[i].key == *key {
                return Some(i);
            }
            i = i + 1;
        }
        None
    }

    /// The value stored under the key, if any.
    pub fn get(&self, key: &String) -> (r: Option<&String>)
        requires
            self.wf(),
        ensures
            match r {
                Some(v) => exists|i: int|
                    0 <= i < self@.len() && #[trigger] self@[i].key == key@ && self@[i].value
                        == v@,
                None => !has_key(self@, key@),
            },
    {
        match self.find(key) {
            Some(i) => Some(&self.rows[i].value),
            None => None,
        }
    }

    /// Sets `key` to `value` at time `now`: the row with that key is updated
    /// in place, or a new row is added. Fails, changing nothing, only when a
    /// new row is needed and no row id is left.
    pub fn upsert(&mut self, key: String, value: String, now: i64) -> (r: Result<(), SettingsError>)
        requires
            old(self).wf(),
        ensures
            final(self).wf(),
            r is Err <==> (!has_key(old(self)@, key@) && old(self).spec_next_id() == i64::MAX),
            r is Ok ==> final(self)@ == upsert_rows(
                old(self)@,
                old(self).spec_next_id(),
                key@,
                value@,
                now as int,
            ),
            r is Err ==> final(self)@ == old(self)@ && r == Err::<(), SettingsError>(
                SettingsError::IdsExhausted,
            ),
    {
        match self.find(&key) {
            Some(i) => {
                let row = Setting {
                    id: self.rows[i].id,
                    key,
                    value,
                    created_at: self.rows[i].created_at,
                    updated_at: now,
                };
                proof {
                    lemma_unique_index(old(self)@, i as int, row.key@);
                }
                self.rows.set(i, row);
                assert(self@ =~= upsert_rows(
                    old(self)@,
                    old(self).spec_next_id(),
                    row.key@,
                    row.value@,
                    now as int,
                ));
                Ok(())
            },
            None => {
                if self.next_id == i64::MAX {
                    return Err(SettingsError::IdsExhausted);
                }
                let row = Setting { id: self.next_id, key, value, created_at: now, updated_at: now };
                self.rows.push(row);
                self.next_id = self.next_id + 1;
                assert(self@ =~= old(self)@.push(row@));
                Ok(())
            },
        }
    }
}

/// With unique keys, the row holding a key is the one that `choose` picks.
proof fn lemma_unique_index(rows: Seq<SettingRow>, i: int, key: Seq<char>)
    requires
        keys_unique(rows),
        0 <= i < rows.len(),
        rows[i].key == key,
    ensures
        has_key(rows, key),
        (choose|j: int| 0 <= j < rows.len() && #[trigger] rows[j].key == key) == i,
{
    assert(rows[i].key == key);
}

/// Setting a key keeps keys unique, and leaves exactly one row with that key,
/// holding the new value.
pub proof fn lemma_upsert_leaves_one_row(
    rows: Seq<SettingRow>,
    next_id: int,
    key: Seq<char>,
    value: Seq<char>,
    now: int,
)
    requires
        keys_unique(rows),
    ensures
        keys_unique(upsert_rows(rows, next_id, key, value, now)),
        exists|i: int|
            0 <= i < upsert_rows(rows, next_id, key, value, now).len()
                && #[trigger] upsert_rows(rows, next_id, key, value, now)[i].key == key
                && upsert_rows(rows, next_id, key, value, now)[i].value == value
                && forall|j: int|
                0 <= j < upsert_rows(rows, next_id, key, value, now).len() && #[trigger] upsert_rows(
                    rows,
                    next_id,
                    key,
                    value,
                    now,
                )[j].key == key ==> j == i,
{
    let r = upsert_rows(rows, next_id, key, value, now);
    if has_key(rows, key) {
        let i = choose|i: int| 0 <= i < rows.len() && #[trigger] rows[i].key == key;
        assert(r[i].key == key);
    } else {
        let i = rows.len() as int;
        assert(r[i].key == key);
    }
}

/// Setting the same key twice in succession leaves exactly one row with that
/// key, holding the second value.
pub proof fn lemma_upsert_twice_keeps_last(
    rows: Seq<SettingRow>,
    first_id: int,
    second_id: int,
    key: Seq<char>,
    first: Seq<char>,
    second: Seq<char>,
    first_time: int,
    second_time: int,
)
    requires
        keys_unique(rows),
    ensures
        ({
            let r = upsert_rows(
                upsert_rows(rows, first_id, key, first, first_time),
                second_id,
                key,
                second,
                second_time,
            );
            &&& keys_unique(r)
            &&& exists|i: int|
                0 <= i < r.len() && #[trigger] r[i].key == key && r[i].value == second && forall|
                    j: int,
                | 0 <= j < r.len() && #[trigger] r[j].key == key ==> j == i
        }),
{
    lemma_upsert_leaves_one_row(rows, first_id, key, first, first_time);
    lemma_upsert_leaves_one_row(
        upsert_rows(rows, first_id, key, first, first_time),
        second_id,
        key,
        second,
        second_time,
    );
}

} // verus!
