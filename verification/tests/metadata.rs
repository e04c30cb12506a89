use tern::metadata::{Metadata, MetadataEntry};

fn entry(file: &str, mtime: i64) -> MetadataEntry {
    MetadataEntry { source_file: file.to_string(), mtime }
}

fn listed(m: &Metadata) -> Vec<(String, i64)> {
    m.entries().into_iter().map(|e| (e.source_file, e.mtime)).collect()
}

#[test]
fn new_metadata_tracks_nothing() {
    let m = Metadata::new();
    assert_eq!(m.len(), 0);
    assert_eq!(m.get("/in/a.md"), None);
    assert!(m.entries().is_empty());
}

#[test]
fn upsert_inserts_an_absent_entry() {
    let mut m = Metadata::new();
    m.upsert("/in/a.md", 1700000000);
    assert_eq!(m.len(), 1);
    assert_eq!(m.get("/in/a.md"), Some(1700000000));
    assert_eq!(m.get("/in/b.md"), None);
}

#[test]
fn upsert_updates_a_present_entry() {
    let mut m = Metadata::new();
    m.upsert("/in/a.md", 10);
    m.upsert("/in/b.md", 20);
    m.upsert("/in/a.md", 30);
    assert_eq!(m.len(), 2);
    assert_eq!(m.get("/in/a.md"), Some(30));
    assert_eq!(m.get("/in/b.md"), Some(20));
    assert_eq!(listed(&m), vec![("/in/a.md".to_string(), 30), ("/in/b.md".to_string(), 20)]);
}

#[test]
fn upsert_takes_any_time() {
    let mut m = Metadata::new();
    m.upsert("a", i64::MIN);
    m.upsert("b", i64::MAX);
    m.upsert("c", -1);
    assert_eq!(m.get("a"), Some(i64::MIN));
    assert_eq!(m.get("b"), Some(i64::MAX));
    assert_eq!(m.get("c"), Some(-1));
}

#[test]
fn from_rows_lets_the_later_row_win() {
    let rows = vec![entry("a", 1), entry("b", 2), entry("a", 3)];
    let m = Metadata::from_rows(&rows);
    assert_eq!(m.len(), 2);
    assert_eq!(m.get("a"), Some(3));
    assert_eq!(m.get("b"), Some(2));
}

#[test]
fn from_rows_of_nothing_is_empty() {
    let m = Metadata::from_rows(&Vec::new());
    assert_eq!(m.len(), 0);
}

#[test]
fn keys_are_compared_exactly() {
    let mut m = Metadata::new();
    m.upsert("/in/a.md", 1);
    assert_eq!(m.get("/in/A.md"), None);
    assert_eq!(m.get("/in/a.md "), None);
    assert_eq!(m.get(""), None);
}
