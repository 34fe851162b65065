use state_machine::storage::{same_text, Key, StorageMap};

#[test]
fn same_text_compares_characters() {
    assert!(same_text("", ""));
    assert!(same_text("alice", "alice"));
    assert!(!same_text("alice", "alicf"));
    assert!(!same_text("alice", "alic"));
    assert!(!same_text("alice", "Alice"));
    assert!(same_text("żółw", "żółw"));
    assert!(!same_text("żółw", "zolw"));
}

#[test]
fn keys_compare_and_duplicate() {
    let a = "alice".to_string();
    assert!(a.same(&"alice".to_string()));
    assert!(!a.same(&"bob".to_string()));
    assert_eq!(a.duplicate(), "alice");
    assert!("x".same(&"x"));
    assert!(!"x".same(&"y"));
    assert_eq!("x".duplicate(), "x");
}

#[test]
fn storage_map_holds_one_value_per_key() {
    let mut map: StorageMap<String, u32> = StorageMap::new();
    assert_eq!(map.get(&"a".to_string()), None);
    assert!(!map.contains_key(&"a".to_string()));
    map.insert("a".to_string(), 1);
    map.insert("b".to_string(), 2);
    map.insert("c".to_string(), 3);
    assert_eq!(map.get(&"a".to_string()), Some(&1));
    assert_eq!(map.get(&"b".to_string()), Some(&2));
    assert_eq!(map.get(&"c".to_string()), Some(&3));
    map.insert("a".to_string(), 10);
    assert_eq!(map.get(&"a".to_string()), Some(&10));
    assert_eq!(map.get(&"b".to_string()), Some(&2));
    assert!(map.contains_key(&"c".to_string()));
}

#[test]
fn storage_map_removes_only_the_key() {
    let mut map: StorageMap<String, u32> = StorageMap::new();
    map.insert("a".to_string(), 1);
    map.insert("b".to_string(), 2);
    map.insert("c".to_string(), 3);
    map.remove(&"a".to_string());
    assert_eq!(map.get(&"a".to_string()), None);
    assert_eq!(map.get(&"b".to_string()), Some(&2));
    assert_eq!(map.get(&"c".to_string()), Some(&3));
    map.remove(&"missing".to_string());
    assert_eq!(map.get(&"b".to_string()), Some(&2));
    map.remove(&"c".to_string());
    map.remove(&"b".to_string());
    assert!(!map.contains_key(&"b".to_string()));
    assert!(!map.contains_key(&"c".to_string()));
    map.insert("a".to_string(), 9);
    assert_eq!(map.get(&"a".to_string()), Some(&9));
}
