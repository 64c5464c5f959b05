use hyprcut::name_map::NameMap;

#[test]
fn get_after_insert_gives_the_value() {
    let mut m = NameMap::new();
    m.insert("a".to_string(), 1);
    m.insert("b".to_string(), 2);
    assert_eq!(m.get("a"), Some(&1));
    assert_eq!(m.get("b"), Some(&2));
    assert_eq!(m.get("c"), None);
}

#[test]
fn insert_replaces_in_place() {
    let mut m = NameMap::new();
    m.insert("a".to_string(), 1);
    m.insert("b".to_string(), 2);
    m.insert("a".to_string(), 3);
    assert_eq!(m.len(), 2);
    assert_eq!(m.name_at(0), "a");
    assert_eq!(*m.value_at(0), 3);
    assert_eq!(m.find("b"), Some(1));
}

#[test]
fn remove_and_insert_at() {
    let mut m = NameMap::new();
    m.insert("a".to_string(), 1);
    m.insert("b".to_string(), 2);
    let (k, v) = m.remove_at(0);
    assert_eq!((k.as_str(), v), ("a", 1));
    assert_eq!(m.len(), 1);
    m.insert_at(1, "c".to_string(), 5);
    assert_eq!(m.name_at(1), "c");
    assert_eq!(m.get("c"), Some(&5));
}
