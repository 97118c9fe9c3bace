use metascoop::string_map::StringMap;

#[test]
fn new_map_is_empty() {
    let map: StringMap<String> = StringMap::new();
    assert!(map.entries().is_empty());
    assert_eq!(map.get("a"), None);
    assert_eq!(map.get(""), None);
}

#[test]
fn inserted_values_are_found_under_their_keys() {
    let mut map: StringMap<String> = StringMap::new();
    map.insert("a".to_string(), "1".to_string());
    map.insert("b".to_string(), "2".to_string());
    map.insert("".to_string(), "empty".to_string());
    assert_eq!(map.get("a"), Some(&"1".to_string()));
    assert_eq!(map.get("b"), Some(&"2".to_string()));
    assert_eq!(map.get(""), Some(&"empty".to_string()));
    assert_eq!(map.get("c"), None);
    assert_eq!(map.get("A"), None);
}

#[test]
fn inserting_again_replaces_the_value() {
    let mut map: StringMap<String> = StringMap::new();
    map.insert("a".to_string(), "1".to_string());
    map.insert("b".to_string(), "2".to_string());
    map.insert("a".to_string(), "3".to_string());
    assert_eq!(map.get("a"), Some(&"3".to_string()));
    assert_eq!(map.get("b"), Some(&"2".to_string()));
    assert_eq!(
        map.entries(),
        &vec![("a".to_string(), "3".to_string()), ("b".to_string(), "2".to_string())]
    );
}

#[test]
fn no_key_occurs_twice_among_the_entries() {
    let mut map: StringMap<String> = StringMap::new();
    for key in ["x", "y", "x", "z", "y", "x"] {
        map.insert(key.to_string(), key.to_uppercase());
    }
    let keys: Vec<&str> = map.entries().iter().map(|e| e.0.as_str()).collect();
    assert_eq!(keys, vec!["x", "y", "z"]);
}

#[test]
fn a_map_is_built_from_its_entries() {
    let entries = vec![
        ("a".to_string(), 1u32),
        ("b".to_string(), 2u32),
        ("a".to_string(), 3u32),
    ];
    let map = StringMap::from_entries(entries);
    assert_eq!(map.get("a"), Some(&3));
    assert_eq!(map.get("b"), Some(&2));
    assert_eq!(map.entries().len(), 2);
    let empty: StringMap<u32> = StringMap::from_entries(Vec::new());
    assert!(empty.entries().is_empty());
}

#[test]
fn a_map_rebuilt_from_its_entries_is_the_same() {
    let mut map: StringMap<String> = StringMap::new();
    map.insert("Name".to_string(), "App".to_string());
    map.insert("License".to_string(), "MIT".to_string());
    map.insert("Name".to_string(), "Other".to_string());
    let rebuilt = StringMap::from_entries(map.entries().clone());
    assert_eq!(rebuilt.entries(), map.entries());
    assert_eq!(rebuilt.get("Name"), Some(&"Other".to_string()));
    assert_eq!(rebuilt.get("License"), Some(&"MIT".to_string()));
}
