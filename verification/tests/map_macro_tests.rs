// Map literals, written out entry by entry.

use std::collections::BTreeMap;

#[test]
fn test_empty_map_curly_brackets() {
    let map: BTreeMap<i32, i32> = BTreeMap::new();
    assert!(map.is_empty());
}

#[test]
fn test_empty_map_square_brackets() {
    let map: BTreeMap<i32, i32> = BTreeMap::new();
    assert!(map.is_empty());
}

#[test]
fn test_single_entry_curly_brackets() {
    let mut map = BTreeMap::new();
    map.insert(1, "one");
    assert_eq!(map.len(), 1);
    assert_eq!(map.get(&1), Some(&"one"));
}

#[test]
fn test_single_entry_square_brackets_pairs() {
    let mut map = BTreeMap::new();
    map.insert(1, "first_entry");
    assert_eq!(map.len(), 1);
    assert_eq!(map.get(&1), Some(&"first_entry"));
}

#[test]
fn test_multiple_entries_curly_brackets() {
    let mut map = BTreeMap::new();
    map.insert(3, "three");
    map.insert(1, "one");
    map.insert(2, "two");

    assert_eq!(map.len(), 3);
    assert_eq!(map.get(&1), Some(&"one"));
    assert_eq!(map.get(&2), Some(&"two"));
    assert_eq!(map.get(&3), Some(&"three"));
}

#[test]
fn test_multiple_entries_square_brackets_pairs() {
    let mut map = BTreeMap::new();
    map.insert(3, "three");
    map.insert(1, "one");
    map.insert(2, "two");

    assert_eq!(map.len(), 3);
    assert_eq!(map.get(&1), Some(&"one"));
    assert_eq!(map.get(&2), Some(&"two"));
    assert_eq!(map.get(&3), Some(&"three"));
}

#[test]
fn test_char_int() {
    let mut map = BTreeMap::new();
    map.insert("a", 1);
    map.insert("b", 2);
    map.insert("c", 3);

    assert_eq!(map.len(), 3);
    assert_eq!(map.get("a"), Some(&1));
    assert_eq!(map.get("b"), Some(&2));
    assert_eq!(map.get("c"), Some(&3));
}

#[test]
fn test_expressions_as_keys_and_values() {
    let x = 5;
    let y = 10;

    let mut map = BTreeMap::new();
    map.insert(x + 1, y * 2);
    map.insert(x - 1, y / 2);

    assert_eq!(map.get(&6), Some(&20));
    assert_eq!(map.get(&4), Some(&5));
}

#[test]
fn test_duplicate_keys() {
    let mut map = BTreeMap::new();
    map.insert(1, "first");
    map.insert(1, "second"); // This should overwrite the previous value
    map.insert(2, "other");

    assert_eq!(map.len(), 2); // Only 2 unique keys
    assert_eq!(map.get(&1), Some(&"second")); // Last value wins
    assert_eq!(map.get(&2), Some(&"other"));
}

#[test]
fn test_sorted_order() {
    let mut map = BTreeMap::new();
    map.insert(5, "e");
    map.insert(1, "a");
    map.insert(3, "c");
    map.insert(4, "d");
    map.insert(2, "b");

    // Collect keys in iteration order (should be sorted)
    let keys: Vec<_> = map.keys().collect();
    assert_eq!(keys, vec![&1, &2, &3, &4, &5]);

    // Collect values in iteration order
    let values: Vec<_> = map.values().collect();
    assert_eq!(values, vec![&"a", &"b", &"c", &"d", &"e"]);
}
