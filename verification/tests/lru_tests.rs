use batch_core::lru::LruMap;

#[test]
fn insert_and_lookup_basics() {
    let mut m: LruMap<u64, u64> = LruMap::new(4);
    assert_eq!(m.len(), 0);
    assert!(!m.contains_key(&1));
    assert_eq!(m.insert(1, 10), None);
    assert_eq!(m.insert(2, 20), None);
    assert_eq!(m.len(), 2);
    assert!(m.contains_key(&1));
    assert_eq!(m.peek(&1), Some(&10));
    assert_eq!(m.get(&2), Some(&20));
    assert_eq!(m.peek(&3), None);
    assert_eq!(m.get(&3), None);
}

#[test]
fn eviction_takes_the_least_recently_used() {
    let mut m: LruMap<u64, u64> = LruMap::new(2);
    assert_eq!(m.insert(1, 10), None);
    assert_eq!(m.insert(2, 20), None);
    // Full: the oldest entry (key 1) goes.
    assert_eq!(m.insert(3, 30), Some(10));
    assert!(!m.contains_key(&1));
    // A lookup refreshes key 2, so key 3 is now the oldest.
    assert_eq!(m.get(&2), Some(&20));
    assert_eq!(m.insert(4, 40), Some(30));
    assert!(m.contains_key(&2));
    assert!(m.contains_key(&4));
    assert!(!m.contains_key(&3));
}

#[test]
fn insert_of_a_present_key_keeps_the_old_value() {
    let mut m: LruMap<u64, u64> = LruMap::new(4);
    assert_eq!(m.insert(1, 10), None);
    assert_eq!(m.insert(1, 99), None);
    assert_eq!(m.peek(&1), Some(&10));
    assert_eq!(m.len(), 1);
}

#[test]
fn insert_of_a_present_key_refreshes_recency() {
    let mut m: LruMap<u64, u64> = LruMap::new(2);
    m.insert(1, 10);
    m.insert(2, 20);
    // Refresh key 1: key 2 becomes the oldest.
    m.insert(1, 11);
    assert_eq!(m.insert(3, 30), Some(20));
    assert!(m.contains_key(&1));
    assert!(!m.contains_key(&2));
}

#[test]
fn modify_replaces_without_touching_recency() {
    let mut m: LruMap<u64, u64> = LruMap::new(2);
    m.insert(1, 10);
    m.insert(2, 20);
    assert!(m.modify(&1, 99));
    assert_eq!(m.peek(&1), Some(&99));
    assert!(!m.modify(&5, 1));
    // Key 1 is still the oldest: it is the one evicted.
    assert_eq!(m.insert(3, 30), Some(99));
}

#[test]
fn peek_does_not_refresh_recency() {
    let mut m: LruMap<u64, u64> = LruMap::new(2);
    m.insert(1, 10);
    m.insert(2, 20);
    assert_eq!(m.peek(&1), Some(&10));
    assert_eq!(m.insert(3, 30), Some(10));
    assert!(!m.contains_key(&1));
}

#[test]
fn remove_gives_the_value_back() {
    let mut m: LruMap<u64, u64> = LruMap::new(4);
    m.insert(1, 10);
    assert_eq!(m.remove(&1), Some(10));
    assert_eq!(m.remove(&1), None);
    assert_eq!(m.len(), 0);
}

#[test]
fn clear_empties_but_keeps_the_capacity() {
    let mut m: LruMap<u64, u64> = LruMap::new(2);
    m.insert(1, 10);
    m.clear();
    assert_eq!(m.len(), 0);
    assert_eq!(m.insert(5, 50), None);
    assert_eq!(m.insert(6, 60), None);
    assert_eq!(m.insert(7, 70), Some(50));
}

#[test]
fn capacity_zero_evicts_at_once() {
    let mut m: LruMap<u64, u64> = LruMap::new(0);
    assert_eq!(m.insert(1, 10), Some(10));
    assert_eq!(m.len(), 0);
}

#[test]
fn append_inserts_in_order_and_collects_evictions() {
    let mut m: LruMap<u64, u64> = LruMap::new(2);
    let outs = m.append(vec![(1, 10), (2, 20), (3, 30)]);
    assert_eq!(outs, vec![10]);
    assert_eq!(m.len(), 2);
    assert!(m.contains_key(&2));
    assert!(m.contains_key(&3));
}

#[test]
fn append_with_equal_keys_keeps_the_first_value() {
    let mut m: LruMap<u64, u64> = LruMap::new(4);
    let outs = m.append(vec![(1, 10), (1, 99)]);
    assert!(outs.is_empty());
    assert_eq!(m.peek(&1), Some(&10));
    assert_eq!(m.len(), 1);
}
