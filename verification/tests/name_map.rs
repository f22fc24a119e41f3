use mra::name_map::NameMap;

#[test]
fn removal_keeps_the_order_of_the_others() {
    let mut map: NameMap<u32> = NameMap::new();
    for (i, name) in ["c", "a", "b"].iter().enumerate() {
        map.insert(name.to_string(), i as u32);
    }
    map.remove("a");
    map.remove("nobody");
    assert_eq!(map.len(), 2);
    assert_eq!((map.name_at(0).as_str(), *map.value_at(0)), ("c", 0));
    assert_eq!((map.name_at(1).as_str(), *map.value_at(1)), ("b", 2));
    assert!(!map.contains("a"));
}
