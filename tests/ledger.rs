use rust_paper::ledger::{LockEntry, LockFile};

fn entry(id: &str, loc: &str, sha: &str) -> LockEntry {
    LockEntry {
        image_id: id.to_string(),
        image_location: loc.to_string(),
        sha256: sha.to_string(),
    }
}

#[test]
fn new_ledger_is_empty() {
    let l = LockFile::new();
    assert_eq!(l.len(), 0);
    assert!(!l.contains("a", "d"));
}

#[test]
fn contains_is_exact() {
    let mut l = LockFile::new();
    l.add("a".to_string(), "/w/a.png".to_string(), "d1".to_string());
    l.add("b".to_string(), "/w/b.png".to_string(), "d2".to_string());
    assert!(l.contains("a", "d1"));
    assert!(!l.contains("a", "d2"));
    assert!(!l.contains("a", "d"));
    assert!(!l.contains("c", "d1"));
    assert!(l.contains("b", "d2"));
}

#[test]
fn add_replaces_in_place() {
    let mut l = LockFile::new();
    l.add("a".to_string(), "/w/a.png".to_string(), "d1".to_string());
    l.add("b".to_string(), "/w/b.png".to_string(), "d2".to_string());
    l.add("a".to_string(), "/w/a.jpeg".to_string(), "d3".to_string());
    assert_eq!(l.len(), 2);
    assert_eq!(l.entry(0).image_id, "a");
    assert_eq!(l.entry(0).image_location, "/w/a.jpeg");
    assert_eq!(l.entry(0).sha256, "d3");
    assert_eq!(l.entry(1).image_id, "b");
    assert!(!l.contains("a", "d1"));
    assert!(l.contains("a", "d3"));
}

#[test]
fn from_entries_later_record_wins() {
    let l = LockFile::from_entries(vec![entry("a", "p1", "d1"), entry("b", "p2", "d2"), entry("a", "p3", "d3")]);
    assert_eq!(l.len(), 2);
    assert!(l.contains("a", "d3"));
    assert!(!l.contains("a", "d1"));
    let es = l.into_entries();
    assert_eq!(es[0].image_location, "p3");
    assert_eq!(es[1].image_id, "b");
}
