use oh_my_droid::mapping::Mapping;

fn pair(key: &str, value: &str) -> (String, String) {
    (key.to_string(), value.to_string())
}

#[test]
fn a_new_mapping_is_empty() {
    let map = Mapping::new();
    assert_eq!(map.len(), 0);
    assert!(map.is_empty());
    assert_eq!(map.get("a"), None);
    assert!(!map.contains_key("a"));
    assert_eq!(map.find(""), None);
}

#[test]
fn insert_adds_at_the_end() {
    let mut map = Mapping::new();
    map.insert("b".to_string(), "2".to_string());
    map.insert("a".to_string(), "1".to_string());
    assert_eq!(map.len(), 2);
    assert!(!map.is_empty());
    assert_eq!(map.key_at(0), "b");
    assert_eq!(map.value_at(0), "2");
    assert_eq!(map.key_at(1), "a");
    assert_eq!(map.value_at(1), "1");
    assert_eq!(map.find("a"), Some(1));
    assert_eq!(map.get("a"), Some(&"1".to_string()));
    assert!(map.contains_key("b"));
    assert!(!map.contains_key("c"));
}

#[test]
fn insert_replaces_the_value_and_keeps_the_place() {
    let mut map = Mapping::new();
    map.insert("a".to_string(), "1".to_string());
    map.insert("b".to_string(), "2".to_string());
    map.insert("a".to_string(), "3".to_string());
    assert_eq!(map.len(), 2);
    assert_eq!(map.key_at(0), "a");
    assert_eq!(map.value_at(0), "3");
    assert_eq!(map.key_at(1), "b");
    assert_eq!(map.get("a"), Some(&"3".to_string()));
}

#[test]
fn keys_are_compared_exactly() {
    let mut map = Mapping::new();
    map.insert("key".to_string(), "1".to_string());
    map.insert("Key".to_string(), "2".to_string());
    map.insert("".to_string(), "3".to_string());
    map.insert("ke".to_string(), "4".to_string());
    assert_eq!(map.len(), 4);
    assert_eq!(map.get("key"), Some(&"1".to_string()));
    assert_eq!(map.get("Key"), Some(&"2".to_string()));
    assert_eq!(map.get(""), Some(&"3".to_string()));
    assert_eq!(map.get("ke"), Some(&"4".to_string()));
    assert_eq!(map.get("k"), None);
}

#[test]
fn from_pairs_sets_each_pair_in_turn() {
    let map = Mapping::from_pairs(vec![pair("a", "1"), pair("b", "2"), pair("a", "3")]);
    assert_eq!(map.len(), 2);
    assert_eq!(map.key_at(0), "a");
    assert_eq!(map.value_at(0), "3");
    assert_eq!(map.key_at(1), "b");
    assert_eq!(map.value_at(1), "2");
    assert!(Mapping::from_pairs(vec![]).is_empty());
}

#[test]
fn a_clone_holds_the_same_entries() {
    let map = Mapping::from_pairs(vec![pair("x", "1"), pair("y", "2")]);
    let copy = map.clone();
    assert_eq!(copy.len(), 2);
    assert_eq!(copy.key_at(0), "x");
    assert_eq!(copy.value_at(1), "2");
}
