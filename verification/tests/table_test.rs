use vm_box::table::Table;

#[test]
fn a_table_maps_each_key_once_and_keeps_the_order() {
    let mut t: Table<u32> = Table::new();
    assert_eq!(t.len(), 0);
    t.insert("b".to_string(), 1);
    t.insert("a".to_string(), 2);
    t.insert("b".to_string(), 3);
    assert_eq!(t.len(), 2);
    assert_eq!(t.get("b"), Some(&3));
    assert_eq!(t.get("a"), Some(&2));
    assert_eq!(t.get("c"), None);
    assert_eq!(t.at(0), (&"b".to_string(), &3));
    assert_eq!(t.at(1), (&"a".to_string(), &2));
    assert_eq!(t.remove("b"), Some(3));
    assert_eq!(t.remove("b"), None);
    assert_eq!(t.len(), 1);
    assert_eq!(t.at(0), (&"a".to_string(), &2));
}
