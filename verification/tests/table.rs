use bridge_channel::table::Table;

#[test]
fn entries_come_and_go() {
    let mut table: Table<String> = Table::new();
    assert_eq!(table.len(), 0);
    assert!(table.get("a").is_none());
    table.insert("a".to_string(), "1".to_string());
    table.insert("b".to_string(), "2".to_string());
    table.insert("c".to_string(), "1".to_string());
    assert_eq!(table.len(), 3);
    assert_eq!(table.get("a").map(String::as_str), Some("1"));
    table.insert("a".to_string(), "2".to_string());
    assert_eq!(table.len(), 3);
    assert_eq!(table.get("a").map(String::as_str), Some("2"));
    assert!(table.contains("b"));
    assert_eq!(table.remove("b").as_deref(), Some("2"));
    assert!(table.remove("b").is_none());
    assert!(!table.contains("b"));
    assert_eq!(table.len(), 2);
}

#[test]
fn values_are_removed_everywhere() {
    let mut table: Table<String> = Table::new();
    for (key, value) in [("a", "1"), ("b", "2"), ("c", "1"), ("d", "1"), ("e", "3")] {
        table.insert(key.to_string(), value.to_string());
    }
    table.remove_value("1");
    assert_eq!(table.len(), 2);
    assert!(table.contains("b"));
    assert!(table.contains("e"));
    table.remove_value("9");
    assert_eq!(table.len(), 2);
}

#[test]
fn values_are_changed_in_place() {
    let mut table: Table<u32> = Table::new();
    table.insert("a".to_string(), 1);
    table.insert("b".to_string(), 2);
    let place = table.find("b").unwrap();
    *table.value_mut(place) = 7;
    assert_eq!(table.key_at(place), "b");
    assert_eq!(table.get("b"), Some(&7));
    assert_eq!(table.get("a"), Some(&1));
    assert!(table.find("c").is_none());
}
