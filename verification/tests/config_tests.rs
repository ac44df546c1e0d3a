use std::collections::HashMap;

use gdrawer::config::{Config, ImageSet, Version};
use gdrawer::set_map::SetMap;

fn set(dir: &str, i: u32) -> ImageSet {
    ImageSet::new(dir.to_string(), i, 5, 10)
}

#[test]
fn version_new_keeps_fields() {
    let v = Version::new(1, 2, 3);
    assert_eq!((v.major, v.minor, v.patch), (1, 2, 3));
    let d = Version::default();
    assert_eq!((d.major, d.minor, d.patch), (0, 0, 0));
}

#[test]
fn image_set_new_keeps_fields() {
    let s = ImageSet::new("/pics".to_string(), 30, 5, 10);
    assert_eq!(s.directory, "/pics");
    assert_eq!((s.image_duration, s.break_duration, s.image_limit), (30, 5, 10));
    let d = ImageSet::default();
    assert_eq!(d.directory, "");
    assert_eq!((d.image_duration, d.break_duration, d.image_limit), (0, 0, 0));
}

#[test]
fn config_new_and_file_name() {
    let mut sets = HashMap::new();
    sets.insert("a".to_string(), set("/a", 1));
    let c = Config::new(Version::new(0, 1, 0), sets);
    assert_eq!(c.version.minor, 1);
    assert_eq!(c.sets.len(), 1);
    assert_eq!(Config::file_name("data"), "data.json");
    assert_eq!(Config::file_name(""), ".json");
}

#[test]
fn set_map_insert_get_remove() {
    let mut m = SetMap::new();
    assert!(!m.contains_key("a"));
    m.insert("b".to_string(), set("/b", 1));
    m.insert("a".to_string(), set("/a", 2));
    m.insert("c".to_string(), set("/c", 3));
    assert!(m.contains_key("a"));
    assert_eq!(m.get("a").unwrap().image_duration, 2);
    assert!(m.get("d").is_none());
    // a second insert under the same name replaces the set
    m.insert("b".to_string(), set("/b2", 9));
    assert_eq!(m.get("b").unwrap().directory, "/b2");
    assert_eq!(m.entries().len(), 3);
    let removed = m.remove("b").unwrap();
    assert_eq!(removed.image_duration, 9);
    assert!(m.remove("b").is_none());
    assert!(!m.contains_key("b"));
    assert_eq!(m.entries().len(), 2);
}

#[test]
fn set_map_lists_in_name_order() {
    let mut m = SetMap::new();
    for name in ["pear", "apple", "Zebra", "fig", "apple pie"] {
        m.insert(name.to_string(), set("/x", 1));
    }
    let names: Vec<&str> = m.entries().iter().map(|(k, _)| k.as_str()).collect();
    assert_eq!(names, vec!["Zebra", "apple", "apple pie", "fig", "pear"]);
}

#[test]
fn set_map_insert_then_remove_restores() {
    let mut m = SetMap::new();
    m.insert("x".to_string(), set("/x", 1));
    m.insert("y".to_string(), set("/y", 2));
    m.insert("new".to_string(), set("/n", 3));
    m.remove("new");
    let names: Vec<&str> = m.entries().iter().map(|(k, _)| k.as_str()).collect();
    assert_eq!(names, vec!["x", "y"]);
}

#[test]
fn set_map_from_pairs_later_wins() {
    let m = SetMap::from_pairs(vec![
        ("b".to_string(), set("/b", 1)),
        ("a".to_string(), set("/a", 2)),
        ("b".to_string(), set("/b", 3)),
    ]);
    assert_eq!(m.entries().len(), 2);
    assert_eq!(m.get("b").unwrap().image_duration, 3);
    assert_eq!(m.entries()[0].0, "a");
}
