use neocities_sync::digest::content_digest;
use neocities_sync::reconcile::{
    deletions, has_allowed_type, is_eligible, process, reconcile, record, LocalFile,
};
use neocities_sync::snapshot::Snapshot;
use neocities_sync::sync::ALLOWED_FILE_TYPES;

fn text(s: &str) -> String {
    s.to_string()
}

fn file(path: &str, content: &[u8]) -> LocalFile {
    LocalFile { path: text(path), content: content.to_vec() }
}

fn snapshot(records: &[(&str, &str)]) -> Snapshot {
    let mut snapshot = Snapshot::new();
    for (path, digest) in records {
        snapshot.insert(text(path), text(digest));
    }
    snapshot
}

fn records(snapshot: &Snapshot) -> Vec<(String, String)> {
    (0..snapshot.len())
        .map(|i| (snapshot.record(i).path.clone(), snapshot.record(i).digest.clone()))
        .collect()
}

#[test]
fn addition() {
    let baseline = Snapshot::new();
    let plan = reconcile(&baseline, vec![file("b.txt", b"hi")], None, &None);
    assert_eq!(plan.to_be_uploaded, vec![(text("b.txt"), b"hi".to_vec())]);
    assert!(plan.to_be_deleted.is_empty());
    assert_eq!(
        records(&plan.new_state),
        vec![(text("b.txt"), text("c22b5f9178342609428d6f51b2c5af4c0bde6a42"))]
    );
    assert_eq!(plan.new_state.get("b.txt"), Some(&content_digest(b"hi")));
}

#[test]
fn deletion() {
    let h1 = content_digest(b"one");
    let baseline = snapshot(&[("a.txt", h1.as_str()), ("c.txt", "h3")]);
    let plan = reconcile(&baseline, vec![file("a.txt", b"one")], None, &None);
    assert!(plan.to_be_uploaded.is_empty());
    assert_eq!(plan.to_be_deleted, vec![text("c.txt")]);
    assert_eq!(records(&plan.new_state), vec![(text("a.txt"), h1)]);
}

#[test]
fn modification() {
    let h1 = content_digest(b"old bytes");
    let h2 = content_digest(b"new bytes");
    assert_ne!(h1, h2);
    let baseline = snapshot(&[("a.txt", h1.as_str())]);
    let plan = reconcile(&baseline, vec![file("a.txt", b"new bytes")], None, &None);
    assert_eq!(plan.to_be_uploaded, vec![(text("a.txt"), b"new bytes".to_vec())]);
    assert!(plan.to_be_deleted.is_empty());
    assert_eq!(records(&plan.new_state), vec![(text("a.txt"), h2)]);
}

#[test]
fn unchanged_tree() {
    let baseline = snapshot(&[
        ("index.html", content_digest(b"<html>").as_str()),
        ("css/site.css", content_digest(b"body {}").as_str()),
    ]);
    let files = vec![file("css/site.css", b"body {}"), file("index.html", b"<html>")];
    let plan = reconcile(&baseline, files, None, &None);
    assert!(plan.to_be_uploaded.is_empty());
    assert!(plan.to_be_deleted.is_empty());
    assert_eq!(plan.new_state.len(), baseline.len());
    for i in 0..baseline.len() {
        let record = baseline.record(i);
        assert_eq!(plan.new_state.get(record.path.as_str()), Some(&record.digest));
    }
}

#[test]
fn idempotence() {
    let tree = || vec![file("a.txt", b"one"), file("b/c.md", b"two"), file("d.bin", b"three")];
    let baseline = snapshot(&[("a.txt", "stale"), ("gone.txt", "h")]);
    let first = reconcile(&baseline, tree(), None, &None);
    assert_eq!(first.to_be_uploaded.len(), 3);
    assert_eq!(first.to_be_deleted, vec![text("gone.txt")]);
    let second = reconcile(&first.new_state, tree(), None, &None);
    assert!(second.to_be_uploaded.is_empty());
    assert!(second.to_be_deleted.is_empty());
    assert_eq!(records(&second.new_state), records(&first.new_state));
}

#[test]
fn type_filtering() {
    let digest = content_digest(b"blob");
    let baseline = snapshot(&[("x.bin", digest.as_str())]);
    let allowed: [&str; 2] = ["html", "txt"];
    let plan = reconcile(&baseline, vec![file("x.bin", b"blob")], Some(&allowed), &None);
    assert!(!plan.new_state.contains_key("x.bin"));
    assert_eq!(plan.new_state.len(), 0);
    assert!(plan.to_be_uploaded.is_empty());
    assert_eq!(plan.to_be_deleted, vec![text("x.bin")]);
}

#[test]
fn type_filtering_keeps_what_is_allowed() {
    let allowed: [&str; 2] = ["html", "txt"];
    let files = vec![file("a.txt", b"1"), file("b.exe", b"2"), file("noext", b"3"), file("c.html", b"4")];
    let plan = reconcile(&Snapshot::new(), files, Some(&allowed), &None);
    assert_eq!(
        plan.to_be_uploaded,
        vec![(text("a.txt"), b"1".to_vec()), (text("c.html"), b"4".to_vec())]
    );
    assert_eq!(plan.new_state.len(), 2);
}

#[test]
fn self_exclusion() {
    let exclude = Some(text(".state"));
    let files = vec![file(".state", b"a.txt:h\n"), file("a.txt", b"one")];
    let plan = reconcile(&snapshot(&[("old.txt", "h")]), files, None, &exclude);
    assert!(!plan.new_state.contains_key(".state"));
    assert_eq!(plan.to_be_uploaded, vec![(text("a.txt"), b"one".to_vec())]);
    assert_eq!(plan.to_be_deleted, vec![text("old.txt")]);
}

#[test]
fn a_state_file_that_the_baseline_holds_is_not_deleted() {
    let exclude = Some(text(".state"));
    let baseline = snapshot(&[(".state", "h"), ("old.txt", "h")]);
    let plan = reconcile(&baseline, vec![file(".state", b"x")], None, &exclude);
    assert!(!plan.new_state.contains_key(".state"));
    assert!(plan.to_be_uploaded.is_empty());
    assert_eq!(plan.to_be_deleted, vec![text("old.txt")]);
    let plan = reconcile(&baseline, Vec::new(), None, &exclude);
    assert_eq!(plan.to_be_deleted, vec![text("old.txt")]);
    let plan = reconcile(&snapshot(&[(".state", "h")]), Vec::new(), None, &exclude);
    assert!(plan.to_be_deleted.is_empty());
}

#[test]
fn without_an_excluded_file_every_missing_path_is_deleted() {
    let baseline = snapshot(&[(".state", "h"), ("old.txt", "h")]);
    let plan = reconcile(&baseline, Vec::new(), None, &None);
    assert_eq!(plan.to_be_deleted, vec![text(".state"), text("old.txt")]);
}

#[test]
fn empty_tree_deletes_every_baseline_path() {
    let baseline = snapshot(&[("a.txt", "h1"), ("b.txt", "h2"), ("c/d.txt", "h3")]);
    let plan = reconcile(&baseline, Vec::new(), None, &None);
    assert!(plan.to_be_uploaded.is_empty());
    assert_eq!(plan.to_be_deleted, vec![text("a.txt"), text("b.txt"), text("c/d.txt")]);
    assert_eq!(plan.new_state.len(), 0);
}

#[test]
fn empty_baseline_uploads_every_file() {
    let files = vec![file("a.txt", b"1"), file("b.txt", b"2")];
    let plan = reconcile(&Snapshot::new(), files, None, &None);
    assert!(plan.to_be_deleted.is_empty());
    assert_eq!(
        plan.to_be_uploaded,
        vec![(text("a.txt"), b"1".to_vec()), (text("b.txt"), b"2".to_vec())]
    );
}

#[test]
fn a_path_listed_twice_keeps_the_later_digest() {
    let files = vec![file("a.txt", b"first"), file("a.txt", b"second")];
    let plan = reconcile(&Snapshot::new(), files, None, &None);
    assert_eq!(records(&plan.new_state), vec![(text("a.txt"), content_digest(b"second"))]);
    assert_eq!(plan.to_be_uploaded.len(), 2);
}

#[test]
fn record_compares_by_digest_only() {
    let baseline = snapshot(&[("a.txt", "h1")]);
    let mut new_state = Snapshot::new();
    let mut uploads = Vec::new();
    record(&baseline, &mut new_state, &mut uploads, text("a.txt"), text("h1"), b"x".to_vec());
    assert!(uploads.is_empty());
    record(&baseline, &mut new_state, &mut uploads, text("b.txt"), text("h1"), b"y".to_vec());
    assert_eq!(uploads, vec![(text("b.txt"), b"y".to_vec())]);
    record(&baseline, &mut new_state, &mut uploads, text("a.txt"), text("h2"), b"z".to_vec());
    assert_eq!(uploads, vec![(text("b.txt"), b"y".to_vec()), (text("a.txt"), b"z".to_vec())]);
    assert_eq!(records(&new_state), vec![(text("a.txt"), text("h2")), (text("b.txt"), text("h1"))]);
}

#[test]
fn process_hashes_and_passes_over_the_excluded_file() {
    let baseline = Snapshot::new();
    let mut new_state = Snapshot::new();
    let mut uploads = Vec::new();
    let exclude = Some(text(".state"));
    process(&baseline, &mut new_state, &exclude, &mut uploads, text(".state"), b"s".to_vec());
    assert_eq!(new_state.len(), 0);
    assert!(uploads.is_empty());
    process(&baseline, &mut new_state, &exclude, &mut uploads, text("a.txt"), b"hi".to_vec());
    assert_eq!(
        records(&new_state),
        vec![(text("a.txt"), text("c22b5f9178342609428d6f51b2c5af4c0bde6a42"))]
    );
    assert_eq!(uploads, vec![(text("a.txt"), b"hi".to_vec())]);
}

#[test]
fn deletions_follow_the_order_of_the_baseline() {
    let baseline = snapshot(&[("z.txt", "1"), ("m.txt", "2"), ("a.txt", "3")]);
    let new_state = snapshot(&[("m.txt", "other")]);
    assert_eq!(deletions(&baseline, &new_state, &None), vec![text("z.txt"), text("a.txt")]);
    assert_eq!(deletions(&baseline, &new_state, &Some(text("z.txt"))), vec![text("a.txt")]);
    assert_eq!(deletions(&baseline, &new_state, &Some(text("m.txt"))), vec![text("z.txt"), text("a.txt")]);
    assert_eq!(deletions(&baseline, &new_state, &Some(text("other"))), vec![text("z.txt"), text("a.txt")]);
}

#[test]
fn eligibility() {
    let allowed: [&str; 1] = ["txt"];
    let exclude = Some(text("dir/.state"));
    assert!(is_eligible("a.txt", Some(&allowed), &exclude));
    assert!(!is_eligible("a.bin", Some(&allowed), &exclude));
    assert!(is_eligible("a.bin", None, &exclude));
    assert!(!is_eligible("dir/.state", None, &exclude));
    assert!(is_eligible(".state", None, &exclude));
    assert!(is_eligible("dir/.state", None, &None));
    assert!(!is_eligible("dir/.state", Some(&allowed), &None));
}

#[test]
fn the_host_list_of_types() {
    assert_eq!(ALLOWED_FILE_TYPES.len(), 66);
    assert!(has_allowed_type("index.html", &ALLOWED_FILE_TYPES));
    assert!(has_allowed_type("img/logo.png", &ALLOWED_FILE_TYPES));
    assert!(has_allowed_type("data.bin", &ALLOWED_FILE_TYPES));
    assert!(has_allowed_type("a.resolveHandle", &ALLOWED_FILE_TYPES));
    assert!(!has_allowed_type("a.resolvehandle", &ALLOWED_FILE_TYPES));
    assert!(!has_allowed_type("index.HTML", &ALLOWED_FILE_TYPES));
    assert!(!has_allowed_type("run.exe", &ALLOWED_FILE_TYPES));
    assert!(!has_allowed_type("html", &ALLOWED_FILE_TYPES));
    assert!(!has_allowed_type(".html", &ALLOWED_FILE_TYPES));
    assert!(!has_allowed_type("name.", &ALLOWED_FILE_TYPES));
}
