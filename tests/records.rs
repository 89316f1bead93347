use finance_db::records::{generate_transaction, RecurringTransaction, Settings};

fn rent() -> RecurringTransaction<f64> {
    RecurringTransaction {
        id: 7,
        amount: 1250.5,
        description: Some("rent".to_string()),
        category: "housing".to_string(),
        start_date: 1_700_000_000,
        last_charged: None,
        recurrence_value: "monthly".to_string(),
        created_at: 1_700_000_000,
        updated_at: 1_700_000_000,
    }
}

#[test]
fn generated_transaction_carries_rule_id_and_category() {
    let rule = rent();
    let t = generate_transaction(&rule, 1_702_592_000, 1_702_600_000);
    assert_eq!(t.recurring_transaction_id, Some(7));
    assert_eq!(t.category, "housing");
    assert_eq!(t.amount, 1250.5);
    assert_eq!(t.description.as_deref(), Some("rent"));
    assert_eq!(t.transaction_date, 1_702_592_000);
    assert!(!t.verified);
    assert_eq!(t.created_at, 1_702_600_000);
    assert_eq!(t.updated_at, 1_702_600_000);
}

#[test]
fn generated_transaction_without_description() {
    let mut rule = rent();
    rule.description = None;
    rule.category = "utilities".to_string();
    let t = generate_transaction(&rule, 5, 6);
    assert_eq!(t.description, None);
    assert_eq!(t.category, "utilities");
    assert_eq!(t.recurring_transaction_id, Some(rule.id));
}

#[test]
fn upsert_same_key_twice_keeps_one_row_with_last_value() {
    let mut s = Settings::new();
    assert_eq!(s.upsert("theme".to_string(), "dark".to_string(), 10), Ok(()));
    assert_eq!(s.upsert("theme".to_string(), "light".to_string(), 20), Ok(()));
    assert_eq!(s.len(), 1);
    assert_eq!(s.get(&"theme".to_string()).map(|v| v.as_str()), Some("light"));
}

#[test]
fn upsert_distinct_keys_adds_rows() {
    let mut s = Settings::new();
    assert_eq!(s.get(&"currency".to_string()), None);
    assert_eq!(s.upsert("theme".to_string(), "dark".to_string(), 1), Ok(()));
    assert_eq!(s.upsert("currency".to_string(), "EUR".to_string(), 2), Ok(()));
    assert_eq!(s.upsert("theme".to_string(), "light".to_string(), 3), Ok(()));
    assert_eq!(s.len(), 2);
    assert_eq!(s.get(&"currency".to_string()).map(|v| v.as_str()), Some("EUR"));
    assert_eq!(s.get(&"theme".to_string()).map(|v| v.as_str()), Some("light"));
    assert_eq!(s.get(&"language".to_string()), None);
}
