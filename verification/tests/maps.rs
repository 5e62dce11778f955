use layout_tracker::cache::LayoutCache;
use layout_tracker::layout_map::InputLayoutMap;

fn entry(device: &str, index: i32) -> (String, i32) {
    (device.to_string(), index)
}

fn layouts(entries: &[(&str, i32)]) -> InputLayoutMap {
    let mut map = InputLayoutMap::new();
    for (device, index) in entries {
        map.insert(device.to_string(), *index);
    }
    map
}

#[test]
fn new_layout_map_is_empty() {
    let map = InputLayoutMap::new();
    assert_eq!(map.len(), 0);
    assert_eq!(map.get("D"), None);
    assert!(map.entries().is_empty());
    assert!(map.switch_commands().is_empty());
}

#[test]
fn layout_map_keeps_insertion_order() {
    let map = layouts(&[("D", 2), ("E", 1), ("C", 0)]);
    assert_eq!(map.len(), 3);
    assert_eq!(map.entries(), vec![entry("D", 2), entry("E", 1), entry("C", 0)]);
    assert_eq!(map.get("D"), Some(2));
    assert_eq!(map.get("E"), Some(1));
    assert_eq!(map.get("C"), Some(0));
    assert_eq!(map.get("F"), None);
}

#[test]
fn layout_map_insert_replaces_in_place() {
    let mut map = layouts(&[("D", 2), ("E", 1)]);
    map.insert("D".to_string(), 5);
    assert_eq!(map.len(), 2);
    assert_eq!(map.entries(), vec![entry("D", 5), entry("E", 1)]);
    map.insert("E".to_string(), 1);
    assert_eq!(map.entries(), vec![entry("D", 5), entry("E", 1)]);
}

#[test]
fn layout_map_devices_differ_by_any_character() {
    let map = layouts(&[("kbd", 1), ("kbd ", 2), ("Kbd", 3), ("", 4)]);
    assert_eq!(map.len(), 4);
    assert_eq!(map.get("kbd"), Some(1));
    assert_eq!(map.get("kbd "), Some(2));
    assert_eq!(map.get("Kbd"), Some(3));
    assert_eq!(map.get(""), Some(4));
}

#[test]
fn layout_map_commands_follow_the_entries() {
    let map = layouts(&[("D", 2), ("E", 1)]);
    assert_eq!(
        map.switch_commands(),
        vec![
            "input D xkb_switch_layout 2".to_string(),
            "input E xkb_switch_layout 1".to_string(),
        ]
    );
}

#[test]
fn new_cache_is_empty() {
    let cache = LayoutCache::new();
    assert!(!cache.contains_key("1"));
    assert!(cache.get("1").is_none());
}

#[test]
fn cache_insert_then_get() {
    let mut cache = LayoutCache::new();
    cache.insert("1".to_string(), layouts(&[("D", 2)]));
    cache.insert("2".to_string(), layouts(&[("D", 0), ("E", 1)]));
    assert!(cache.contains_key("1"));
    assert!(cache.contains_key("2"));
    assert!(!cache.contains_key("3"));
    assert_eq!(cache.get("1").unwrap().entries(), vec![entry("D", 2)]);
    assert_eq!(
        cache.get("2").unwrap().entries(),
        vec![entry("D", 0), entry("E", 1)]
    );
}

#[test]
fn cache_insert_overwrites() {
    let mut cache = LayoutCache::new();
    cache.insert("1".to_string(), layouts(&[("D", 2), ("E", 1)]));
    cache.insert("2".to_string(), layouts(&[("D", 7)]));
    cache.insert("1".to_string(), layouts(&[("D", 0)]));
    assert_eq!(cache.get("1").unwrap().entries(), vec![entry("D", 0)]);
    assert_eq!(cache.get("2").unwrap().entries(), vec![entry("D", 7)]);
}

#[test]
fn cache_remove_drops_one_key() {
    let mut cache = LayoutCache::new();
    cache.insert("1".to_string(), layouts(&[("D", 1)]));
    cache.insert("2".to_string(), layouts(&[("D", 2)]));
    cache.insert("3".to_string(), layouts(&[("D", 3)]));
    cache.remove("2");
    assert!(cache.contains_key("1"));
    assert!(!cache.contains_key("2"));
    assert!(cache.contains_key("3"));
    assert_eq!(cache.get("1").unwrap().entries(), vec![entry("D", 1)]);
    assert_eq!(cache.get("3").unwrap().entries(), vec![entry("D", 3)]);
}

#[test]
fn cache_remove_of_absent_key_changes_nothing() {
    let mut cache = LayoutCache::new();
    cache.remove("1");
    cache.insert("1".to_string(), layouts(&[("D", 1)]));
    cache.remove("2");
    cache.remove("");
    assert!(cache.contains_key("1"));
    assert_eq!(cache.get("1").unwrap().entries(), vec![entry("D", 1)]);
}

#[test]
fn cache_remove_then_insert_again() {
    let mut cache = LayoutCache::new();
    cache.insert("1".to_string(), layouts(&[("D", 1)]));
    cache.remove("1");
    assert!(cache.get("1").is_none());
    cache.insert("1".to_string(), layouts(&[("E", 4)]));
    assert_eq!(cache.get("1").unwrap().entries(), vec![entry("E", 4)]);
}
