use in_mem_db::store::InMemSetDB;

#[test]
fn new_store_is_empty() {
    let store = InMemSetDB::new();
    assert_eq!(store.size(), "{\"size\":0}");
}

#[test]
fn add_reports_success() {
    let mut store = InMemSetDB::new();
    assert_eq!(store.add("apple".to_string()), "{\"success\":true}");
}

#[test]
fn add_twice_leaves_size_unchanged() {
    let mut store = InMemSetDB::new();
    store.add("apple".to_string());
    let size_after_first = store.size();
    store.add("apple".to_string());
    let size_after_second = store.size();
    assert_eq!(size_after_first, "{\"size\":1}");
    assert_eq!(size_after_second, "{\"size\":1}");
}

#[test]
fn contains_true_after_add_false_after_clear() {
    let mut store = InMemSetDB::new();
    store.add("apple".to_string());
    assert_eq!(store.contains("apple"), "{\"exists\":true}");
    store.clear();
    assert_eq!(store.contains("apple"), "{\"exists\":false}");
}

#[test]
fn contains_without_add_is_false() {
    let store = InMemSetDB::new();
    assert_eq!(store.contains("banana"), "{\"exists\":false}");
}

#[test]
fn distinct_adds_each_count() {
    let mut store = InMemSetDB::new();
    for i in 0..10 {
        store.add(format!("item-{}", i));
    }
    assert_eq!(store.size(), "{\"size\":10}");
}

#[test]
fn clear_reports_success_and_empties() {
    let mut store = InMemSetDB::new();
    store.add("apple".to_string());
    store.add("pear".to_string());
    assert_eq!(store.clear(), "{\"success\":true}");
    assert_eq!(store.size(), "{\"size\":0}");
}

#[test]
fn size_renders_multi_digit_counts() {
    let mut store = InMemSetDB::new();
    for i in 0..123 {
        store.add(format!("{}", i));
    }
    assert_eq!(store.size(), "{\"size\":123}");
}
