use abi::KeyValueMap;

#[test]
fn key_value_map_insert_then_get() {
    let mut map = KeyValueMap::new();
    assert!(map.get("a").is_none());
    map.insert("a".to_string(), "1".to_string());
    map.insert("b".to_string(), "2".to_string());
    assert_eq!(map.get("a").unwrap(), "1");
    assert_eq!(map.get("b").unwrap(), "2");
    map.insert("a".to_string(), "3".to_string());
    assert_eq!(map.get("a").unwrap(), "3");
    assert_eq!(map.get("b").unwrap(), "2");
    assert!(map.get("c").is_none());
}
