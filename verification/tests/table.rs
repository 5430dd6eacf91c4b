use mcp_server::table::Table;

#[test]
fn names_keep_their_rows() {
    let mut t: Table<u32> = Table::new();
    assert!(t.is_empty());
    assert_eq!(t.insert("a".to_string(), 1), None);
    assert_eq!(t.insert("b".to_string(), 2), None);
    assert_eq!(t.insert("c".to_string(), 3), None);
    assert_eq!(t.insert("a".to_string(), 10), Some(1));
    assert_eq!(t.len(), 3);
    assert_eq!(t.get("a"), Some(&10));
    assert_eq!(t.get("z"), None);
    assert_eq!(t.keys(), vec!["a", "b", "c"]);
    assert_eq!(t.row(1), (&"b".to_string(), &2));
    assert_eq!(t.remove("b"), Some(2));
    assert_eq!(t.remove("b"), None);
    assert_eq!(t.keys(), vec!["a", "c"]);
    assert!(t.contains_key("c"));
    assert!(!t.contains_key("b"));
    assert!(!t.is_empty());
}
