use spinlock::Cache;

#[test]
fn empty_cache_finds_nothing() {
    let cache: Cache<String> = Cache::new(4);
    assert_eq!(cache.get(&0), None);
    assert_eq!(cache.get(&u64::MAX), None);
}

#[test]
fn stored_value_is_found() {
    let mut cache = Cache::new(4);
    assert_eq!(cache.store(12, String::from("Hello"), 1), None);
    assert_eq!(cache.get(&12), Some(String::from("Hello")));
    assert_eq!(cache.get(&13), None);
}

#[test]
fn storing_again_replaces_the_value() {
    let mut cache = Cache::new(4);
    cache.store(1, 10u32, 1);
    cache.store(1, 20u32, 2);
    assert_eq!(cache.get(&1), Some(20));
}

#[test]
fn cache_holds_one_more_than_its_capacity() {
    let mut cache = Cache::new(1);
    assert_eq!(cache.store(0, String::from("Key 0"), 10), None);
    assert_eq!(cache.store(1, String::from("Key 1"), 20), None);
    assert_eq!(cache.get(&0), Some(String::from("Key 0")));
    assert_eq!(cache.get(&1), Some(String::from("Key 1")));
}

#[test]
fn full_cache_drops_its_oldest_entry() {
    let mut cache = Cache::new(1);
    let mut evicted = Vec::new();
    for i in 0..5u64 {
        evicted.push(cache.store(i, format!("Key {}", i), 10 * (i + 1)));
    }
    assert_eq!(evicted, vec![None, None, Some(0), Some(1), Some(2)]);
    assert_eq!(cache.get(&0), None);
    assert_eq!(cache.get(&2), None);
    assert_eq!(cache.get(&3), Some(String::from("Key 3")));
    assert_eq!(cache.get(&4), Some(String::from("Key 4")));
}

#[test]
fn oldest_is_by_time_and_not_by_key() {
    let mut cache = Cache::new(2);
    cache.store(7, 'a', 30);
    cache.store(8, 'b', 10);
    cache.store(9, 'c', 20);
    assert_eq!(cache.store(1, 'd', 40), Some(8));
    assert_eq!(cache.store(2, 'e', 50), Some(9));
    assert_eq!(cache.store(3, 'f', 60), Some(7));
    assert_eq!(cache.get(&1), Some('d'));
}

#[test]
fn entry_stored_again_counts_from_its_new_time() {
    let mut cache = Cache::new(1);
    cache.store(1, 1u8, 10);
    cache.store(2, 2u8, 20);
    cache.store(1, 3u8, 30);
    assert_eq!(cache.store(4, 4u8, 40), Some(2));
    assert_eq!(cache.get(&1), Some(3));
}

#[test]
fn nothing_is_dropped_when_no_entry_is_older_than_now() {
    let mut cache = Cache::new(0);
    assert_eq!(cache.store(1, 1u8, 5), None);
    assert_eq!(cache.store(2, 2u8, 5), None);
    assert_eq!(cache.store(3, 3u8, 0), None);
    assert_eq!(cache.get(&1), Some(1));
    assert_eq!(cache.get(&2), Some(2));
    assert_eq!(cache.get(&3), Some(3));
    assert_eq!(cache.store(4, 4u8, 1), Some(3));
}

#[test]
fn cache_without_capacity_keeps_the_newest() {
    let mut cache = Cache::new(0);
    assert_eq!(cache.store(1, 'x', 1), None);
    assert_eq!(cache.store(2, 'y', 2), Some(1));
    assert_eq!(cache.store(3, 'z', 3), Some(2));
    assert_eq!(cache.get(&3), Some('z'));
    assert_eq!(cache.get(&2), None);
}

#[test]
fn key_being_stored_can_be_the_one_dropped() {
    let mut cache = Cache::new(0);
    cache.store(1, 'x', 1);
    assert_eq!(cache.store(1, 'y', 2), Some(1));
    assert_eq!(cache.get(&1), Some('y'));
}

#[test]
fn cache_of_the_largest_capacity_drops_nothing() {
    let mut cache = Cache::new(usize::MAX);
    for key in 0..1000u64 {
        assert_eq!(cache.store(key, key * 2, 1000 - key), None);
    }
    assert_eq!(cache.store(12, 7, u64::MAX), None);
    for key in 0..1000u64 {
        let expected = if key == 12 { 7 } else { key * 2 };
        assert_eq!(cache.get(&key), Some(expected));
    }
    assert_eq!(cache.get(&1000), None);
}
