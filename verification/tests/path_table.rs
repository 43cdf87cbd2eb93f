use pandora_backend::path_table::PathTable;

#[test]
fn table_keeps_one_value_for_a_path() {
    let mut table: PathTable<u32> = PathTable::new();
    assert_eq!(table.len(), 0);
    assert_eq!(table.get("/a"), None);
    assert!(!table.contains("/a"));
    table.insert("/a".to_string(), 1);
    table.insert("/b".to_string(), 2);
    assert_eq!(table.get("/a"), Some(1));
    assert_eq!(table.get("/b"), Some(2));
    assert_eq!(table.get("/c"), None);
    assert_eq!(table.len(), 2);
    table.insert("/a".to_string(), 3);
    assert_eq!(table.get("/a"), Some(3));
    assert_eq!(table.get("/b"), Some(2));
    assert_eq!(table.len(), 2);
    assert!(table.contains("/a"));
    assert!(!table.contains("/A"));
    assert!(!table.contains(""));
}
