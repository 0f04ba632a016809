use heimdall::table::Table;

#[test]
fn insert_get_remove() {
    let mut table: Table<u32> = Table::new();
    assert_eq!(table.len(), 0);
    assert_eq!(table.get("a"), None);
    table.insert("a".to_string(), 1);
    table.insert("b".to_string(), 2);
    table.insert("c".to_string(), 3);
    assert_eq!(table.len(), 3);
    assert_eq!(table.get("b"), Some(&2));
    table.insert("b".to_string(), 20);
    assert_eq!(table.len(), 3);
    assert_eq!(table.get("b"), Some(&20));
    assert_eq!(table.remove("a"), Some(1));
    assert_eq!(table.remove("a"), None);
    assert_eq!(table.len(), 2);
    assert!(table.contains_key("c"));
    assert!(!table.contains_key("a"));
    assert_eq!(table.get("c"), Some(&3));
    assert_eq!(table.get("b"), Some(&20));
    assert_eq!(table.find("zz"), None);
    let at = table.find("c").unwrap();
    assert_eq!(table.key_at(at), "c");
    assert_eq!(table.value_at(at), &3);
    table.clear();
    assert_eq!(table.len(), 0);
    assert_eq!(table.get("b"), None);
}

#[test]
fn keys_are_told_apart_by_their_text() {
    let mut table: Table<&str> = Table::new();
    table.insert("200".to_string(), "a");
    table.insert("0200".to_string(), "b");
    table.insert("".to_string(), "c");
    table.insert("é".to_string(), "d");
    assert_eq!(table.len(), 4);
    assert_eq!(table.get("200"), Some(&"a"));
    assert_eq!(table.get("0200"), Some(&"b"));
    assert_eq!(table.get(""), Some(&"c"));
    assert_eq!(table.get("é"), Some(&"d"));
    assert_eq!(table.get("e"), None);
    let mut seen: Vec<(String, &str)> =
        (0..table.len()).map(|i| (table.key_at(i).to_string(), *table.value_at(i))).collect();
    seen.sort();
    assert_eq!(seen.len(), 4);
    assert_eq!(seen[0], ("".to_string(), "c"));
}
