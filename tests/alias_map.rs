use doom_launch::alias_map::AliasMap;

#[test]
fn alias_map_empty() {
    let map = AliasMap::<String, u8>::new();
    assert_eq!(map.get("test"), None);
}

#[test]
fn alias_map_retrieve() {
    let mut map = AliasMap::new();
    map.insert(String::from("test"), 0);
    assert_eq!(map.get("test"), Some(&0));
    assert_eq!(map.get("set"), None);
}

#[test]
fn alias_map_retrieve_aliased() {
    let mut map = AliasMap::new();
    map.insert(String::from("test"), 0);
    map.alias("test", String::from("set")).unwrap();
    assert_eq!(map.get("test").unwrap(), map.get("set").unwrap());
}

#[test]
fn alias_map_alias_of_missing_key_fails() {
    let mut map = AliasMap::<String, u8>::with_capacities(4, 4);
    map.insert(String::from("test"), 3);
    assert_eq!(map.alias("nope", String::from("set")), Err("Previous key does not exist."));
    assert_eq!(map.get("set"), None);
}

#[test]
fn alias_map_reinsert_moves_key() {
    let mut map = AliasMap::new();
    assert_eq!(*map.insert(String::from("a"), 1), 1);
    map.alias("a", String::from("b")).unwrap();
    map.insert(String::from("a"), 2);
    assert_eq!(map.get("a"), Some(&2));
    assert_eq!(map.get("b"), Some(&1));
}
