use tera_shortcodes::table::Table;

#[test]
fn new_table_is_empty() {
    let table: Table<u32> = Table::new();
    assert_eq!(table.len(), 0);
    assert_eq!(table.get("a"), None);
    assert_eq!(table.position("a"), None);
    assert!(!table.contains("a"));
}

#[test]
fn entries_keep_their_order_of_arrival() {
    let mut table = Table::new();
    table.insert("b".to_string(), 2);
    table.insert("a".to_string(), 1);
    table.insert("c".to_string(), 3);
    assert_eq!(table.len(), 3);
    assert_eq!(table.key_at(0), "b");
    assert_eq!(table.key_at(1), "a");
    assert_eq!(table.key_at(2), "c");
    assert_eq!(table.value_at(1), &1);
    assert_eq!(table.position("c"), Some(2));
}

#[test]
fn insert_under_a_known_key_replaces_in_place() {
    let mut table = Table::new();
    table.insert("a".to_string(), 1);
    table.insert("b".to_string(), 2);
    table.insert("a".to_string(), 10);
    assert_eq!(table.len(), 2);
    assert_eq!(table.key_at(0), "a");
    assert_eq!(table.get("a"), Some(&10));
    assert_eq!(table.get("b"), Some(&2));
}

#[test]
fn remove_returns_the_value_and_closes_the_gap() {
    let mut table = Table::new();
    table.insert("a".to_string(), 1);
    table.insert("b".to_string(), 2);
    table.insert("c".to_string(), 3);
    assert_eq!(table.remove("b"), Some(2));
    assert_eq!(table.remove("b"), None);
    assert_eq!(table.len(), 2);
    assert_eq!(table.key_at(0), "a");
    assert_eq!(table.key_at(1), "c");
    assert!(!table.contains("b"));
}

#[test]
fn keys_differ_by_case_and_by_accents() {
    let mut table = Table::new();
    table.insert("a".to_string(), 1);
    table.insert("A".to_string(), 2);
    table.insert("á".to_string(), 3);
    assert_eq!(table.len(), 3);
    assert_eq!(table.get("A"), Some(&2));
    assert_eq!(table.get("á"), Some(&3));
}

#[test]
fn clear_removes_every_entry() {
    let mut table = Table::new();
    table.insert("a".to_string(), 1);
    table.insert("b".to_string(), 2);
    table.clear();
    assert_eq!(table.len(), 0);
    assert_eq!(table.get("a"), None);
}
