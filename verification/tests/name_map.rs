use table_commit::name_map::NameMap;

#[test]
fn names_are_held_once() {
    let mut map: NameMap<i32> = NameMap::new();
    assert!(map.is_empty());
    map.insert("a".to_string(), 1);
    map.insert("b".to_string(), 2);
    map.insert("a".to_string(), 3);
    assert_eq!(map.get("a"), Some(&3));
    assert_eq!(map.get("b"), Some(&2));
    assert_eq!(map.get("c"), None);
    map.remove("a");
    assert_eq!(map.get("a"), None);
    assert!(!map.contains_key("a"));
    assert!(map.contains_key("b"));
    map.remove("a");
    assert!(!map.is_empty());
}

#[test]
fn copies_hold_the_same() {
    let mut map: NameMap<String> = NameMap::new();
    map.insert("é".to_string(), "x".to_string());
    let copy = map.clone();
    map.remove("é");
    assert_eq!(copy.get("é"), Some(&"x".to_string()));
    map.insert_all(&copy);
    assert_eq!(map.get("é"), Some(&"x".to_string()));
    map.remove_all(&vec!["é".to_string(), "e".to_string()]);
    assert!(map.is_empty());
}
