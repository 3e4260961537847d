use neocities_sync::path::{extension, relative_path, slash_route, to_slash};

#[test]
fn extension_follows_the_last_dot_of_the_file_name() {
    assert_eq!(extension("index.html"), Some("html".to_string()));
    assert_eq!(extension("a/b/archive.tar.gz"), Some("gz".to_string()));
    assert_eq!(extension("x.bin"), Some("bin".to_string()));
}

#[test]
fn no_extension_without_a_dot_in_the_file_name() {
    assert_eq!(extension("Makefile"), None);
    assert_eq!(extension("dir.d/Makefile"), None);
    assert_eq!(extension(""), None);
    assert_eq!(extension("dir/"), None);
}

#[test]
fn a_leading_dot_starts_no_extension() {
    assert_eq!(extension(".state"), None);
    assert_eq!(extension("dir/.hidden"), None);
    assert_eq!(extension(".hidden.txt"), Some("txt".to_string()));
}

#[test]
fn a_trailing_dot_gives_the_empty_extension() {
    assert_eq!(extension("name."), Some(String::new()));
}

#[test]
fn to_slash_turns_every_separator() {
    assert_eq!(to_slash("a\\b\\c.txt", '\\'), "a/b/c.txt");
    assert_eq!(to_slash("a/b/c.txt", '/'), "a/b/c.txt");
    assert_eq!(to_slash("a\\b", '/'), "a\\b");
    assert_eq!(to_slash("", '\\'), "");
}

#[test]
fn relative_path_of_a_file_under_the_root() {
    assert_eq!(relative_path("site/a/b.txt", "site"), Some("a/b.txt".to_string()));
    assert_eq!(relative_path("site/index.html", "site"), Some("index.html".to_string()));
    assert_eq!(relative_path("./.state", "."), Some(".state".to_string()));
    assert_eq!(relative_path("/srv/site/a.txt", "/srv/site"), Some("a.txt".to_string()));
}

#[test]
fn relative_path_of_a_file_beside_the_root() {
    assert_eq!(relative_path("state/.state", "site"), Some("../state/.state".to_string()));
}

#[test]
fn no_relative_path_from_an_absolute_base_to_a_relative_path() {
    assert_eq!(relative_path("site/a.txt", "/srv"), None);
}

#[test]
fn a_route_is_written_with_slashes_and_none_stays_none() {
    assert_eq!(slash_route(Some("a\\b.txt".to_string()), '\\'), Some("a/b.txt".to_string()));
    assert_eq!(slash_route(Some("a/b.txt".to_string()), '/'), Some("a/b.txt".to_string()));
    assert_eq!(slash_route(Some("..\\x".to_string()), '/'), Some("..\\x".to_string()));
    assert_eq!(slash_route(Some(String::new()), '\\'), Some(String::new()));
    assert_eq!(slash_route(None, '\\'), None);
    assert_eq!(slash_route(None, '/'), None);
}
