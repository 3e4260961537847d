use neocities_sync::snapshot::Snapshot;

fn text(s: &str) -> String {
    s.to_string()
}

#[test]
fn a_new_snapshot_is_empty() {
    let snapshot = Snapshot::new();
    assert_eq!(snapshot.len(), 0);
    assert!(snapshot.get("a.txt").is_none());
    assert!(!snapshot.contains_key("a.txt"));
}

#[test]
fn insert_then_get() {
    let mut snapshot = Snapshot::new();
    snapshot.insert(text("a.txt"), text("h1"));
    snapshot.insert(text("dir/b.txt"), text("h2"));
    assert_eq!(snapshot.len(), 2);
    assert_eq!(snapshot.get("a.txt"), Some(&text("h1")));
    assert_eq!(snapshot.get("dir/b.txt"), Some(&text("h2")));
    assert_eq!(snapshot.get("dir"), None);
    assert!(snapshot.contains_key("dir/b.txt"));
    assert_eq!(snapshot.record(1).path, "dir/b.txt");
    assert_eq!(snapshot.record(1).digest, "h2");
}

#[test]
fn a_second_digest_for_a_path_replaces_the_first_in_place() {
    let mut snapshot = Snapshot::new();
    snapshot.insert(text("a.txt"), text("h1"));
    snapshot.insert(text("b.txt"), text("h2"));
    snapshot.insert(text("a.txt"), text("h3"));
    assert_eq!(snapshot.len(), 2);
    assert_eq!(snapshot.record(0).path, "a.txt");
    assert_eq!(snapshot.record(0).digest, "h3");
    assert_eq!(snapshot.record(1).path, "b.txt");
    assert_eq!(snapshot.record(1).digest, "h2");
}

#[test]
fn paths_are_told_apart_to_the_letter() {
    let mut snapshot = Snapshot::new();
    snapshot.insert(text("a.txt"), text("h1"));
    assert!(!snapshot.contains_key("A.txt"));
    assert!(!snapshot.contains_key("a.txt "));
    assert!(!snapshot.contains_key("a.tx"));
    assert!(!snapshot.contains_key(""));
}

#[test]
fn many_paths_are_found_again() {
    let mut snapshot = Snapshot::new();
    for i in 0..2000 {
        snapshot.insert(format!("dir{}/file{}.txt", i % 7, i), format!("digest{}", i));
    }
    assert_eq!(snapshot.len(), 2000);
    for i in 0..2000 {
        let path = format!("dir{}/file{}.txt", i % 7, i);
        assert_eq!(snapshot.get(path.as_str()), Some(&format!("digest{}", i)));
        assert_eq!(snapshot.record(i).path, path);
        assert_eq!(snapshot.record(i).digest, format!("digest{}", i));
    }
    for i in (0..2000).step_by(3) {
        snapshot.insert(format!("dir{}/file{}.txt", i % 7, i), text("changed"));
    }
    assert_eq!(snapshot.len(), 2000);
    for i in 0..2000 {
        let path = format!("dir{}/file{}.txt", i % 7, i);
        let expected = if i % 3 == 0 { text("changed") } else { format!("digest{}", i) };
        assert_eq!(snapshot.get(path.as_str()), Some(&expected));
        assert_eq!(snapshot.record(i).path, path);
        assert_eq!(snapshot.record(i).digest, expected);
    }
    assert!(!snapshot.contains_key("dir0/file2000.txt"));
}
