use village_economy::resource_map::ResourceMap;
use village_economy::village::resource::ResourceType;

#[test]
fn a_new_table_is_empty() {
    let table: ResourceMap<u32> = ResourceMap::new();
    for kind in ResourceType::iterator() {
        assert!(table.get(&kind).is_none());
        assert!(!table.contains_key(&kind));
    }
}

#[test]
fn insert_fills_one_slot_and_hands_back_the_old_value() {
    let mut table: ResourceMap<u32> = ResourceMap::new();
    assert_eq!(None, table.insert(ResourceType::Wood, 3));
    assert_eq!(Some(3), table.insert(ResourceType::Wood, 4));
    assert_eq!(None, table.insert(ResourceType::Gold, 9));

    assert_eq!(Some(&4), table.get(&ResourceType::Wood));
    assert_eq!(Some(&9), table.get(&ResourceType::Gold));
    assert_eq!(None, table.get(&ResourceType::Food));
    assert_eq!(None, table.get(&ResourceType::Stone));
    assert!(table.contains_key(&ResourceType::Wood));
    assert!(!table.contains_key(&ResourceType::Stone));
}

#[test]
fn get_mut_writes_through() {
    let mut table: ResourceMap<f64> = ResourceMap::new();
    table.insert(ResourceType::Food, 1.5);
    table.insert(ResourceType::Stone, 2.0);

    *table.get_mut(&ResourceType::Food).unwrap() += 2.0;

    assert_eq!(Some(&3.5), table.get(&ResourceType::Food));
    assert_eq!(Some(&2.0), table.get(&ResourceType::Stone));
    assert!(table.get_mut(&ResourceType::Wood).is_none());
}
