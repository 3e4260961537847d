use neocities_sync::neocities::Entry;
use neocities_sync::snapshot::Snapshot;
use neocities_sync::state::{
    fetch_state, read_state_file, split_at_first, split_lines, write_state_file,
};

fn text(s: &str) -> String {
    s.to_string()
}

fn records(snapshot: &Snapshot) -> Vec<(String, String)> {
    (0..snapshot.len())
        .map(|i| (snapshot.record(i).path.clone(), snapshot.record(i).digest.clone()))
        .collect()
}

#[test]
fn reads_one_record_per_line() {
    let state = read_state_file("a.txt:h1\ndir/b.txt:h2\n");
    assert_eq!(
        records(&state),
        vec![(text("a.txt"), text("h1")), (text("dir/b.txt"), text("h2"))]
    );
}

#[test]
fn reads_nothing_from_an_empty_text() {
    assert_eq!(read_state_file("").len(), 0);
    assert_eq!(read_state_file("\n\n").len(), 0);
}

#[test]
fn passes_over_lines_without_a_colon() {
    let state = read_state_file("garbage\na.txt:h1\n\nmore garbage\n");
    assert_eq!(records(&state), vec![(text("a.txt"), text("h1"))]);
}

#[test]
fn splits_at_the_first_colon() {
    let state = read_state_file("a:b:c\n:x\ny:\n");
    assert_eq!(
        records(&state),
        vec![(text("a"), text("b:c")), (text(""), text("x")), (text("y"), text(""))]
    );
}

#[test]
fn reads_a_last_line_without_a_line_feed() {
    let state = read_state_file("a.txt:h1\nb.txt:h2");
    assert_eq!(state.get("b.txt"), Some(&text("h2")));
    assert_eq!(state.len(), 2);
}

#[test]
fn a_carriage_return_before_a_line_feed_is_the_line_s_end() {
    let state = read_state_file("a.txt:h1\r\nb.txt:h2\r\r\nc.txt:h3\r");
    assert_eq!(
        records(&state),
        vec![
            (text("a.txt"), text("h1")),
            (text("b.txt"), text("h2\r")),
            (text("c.txt"), text("h3\r"))
        ]
    );
}

#[test]
fn a_later_line_decides_for_a_path() {
    let state = read_state_file("a.txt:h1\nb.txt:h2\na.txt:h3\n");
    assert_eq!(records(&state), vec![(text("a.txt"), text("h3")), (text("b.txt"), text("h2"))]);
}

#[test]
fn lines_of_a_text() {
    assert_eq!(split_lines("one\ntwo\r\n\nthree"), vec!["one", "two", "", "three"]);
    assert_eq!(split_lines("one\n"), vec!["one"]);
    assert_eq!(split_lines("\r"), vec!["\r"]);
    assert_eq!(split_lines("a\rb\n"), vec!["a\rb"]);
    assert_eq!(split_lines("\r\n"), vec![""]);
    assert!(split_lines("").is_empty());
}

#[test]
fn split_at_the_first_occurrence() {
    assert_eq!(split_at_first("key:value", ':'), (text("key"), Some(text("value"))));
    assert_eq!(split_at_first("key", ':'), (text("key"), None));
    assert_eq!(split_at_first(":", ':'), (text(""), Some(text(""))));
    assert_eq!(split_at_first("", ':'), (text(""), None));
}

#[test]
fn writes_one_line_per_record() {
    let mut state = Snapshot::new();
    state.insert(text("a.txt"), text("h1"));
    state.insert(text("dir/b.txt"), text("h2"));
    assert_eq!(write_state_file(&state), "a.txt:h1\ndir/b.txt:h2\n");
    assert_eq!(write_state_file(&Snapshot::new()), "");
}

#[test]
fn what_is_written_is_read_back() {
    let mut state = Snapshot::new();
    state.insert(text("index.html"), text("c22b5f9178342609428d6f51b2c5af4c0bde6a42"));
    state.insert(text("a/b/c.css"), text("da39a3ee5e6b4b0d3255bfef95601890afd80709"));
    let read = read_state_file(write_state_file(&state).as_str());
    assert_eq!(records(&read), records(&state));
}

#[test]
fn a_colon_in_a_path_is_not_read_back() {
    let mut state = Snapshot::new();
    state.insert(text("a:b.txt"), text("h"));
    let read = read_state_file(write_state_file(&state).as_str());
    assert_eq!(records(&read), vec![(text("a"), text("b.txt:h"))]);
}

#[test]
fn the_listing_s_files_make_the_baseline() {
    let listing = vec![
        Entry { path: text("index.html"), sha1_hash: Some(text("h1")) },
        Entry { path: text("img"), sha1_hash: None },
        Entry { path: text("img/a.png"), sha1_hash: Some(text("h2")) },
    ];
    let state = fetch_state(listing);
    assert_eq!(
        records(&state),
        vec![(text("index.html"), text("h1")), (text("img/a.png"), text("h2"))]
    );
    assert_eq!(fetch_state(Vec::new()).len(), 0);
}
