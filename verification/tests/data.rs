use neocities_sync::data::{get_username, Data, DEFAULT_USERNAME_FILE};

fn text(s: &str) -> String {
    s.to_string()
}

#[test]
fn data_as_found() {
    let data = Data::new(text("/home/u/.config/neocities-sync"), Some(text("alice")));
    assert_eq!(data.config_dir(), "/home/u/.config/neocities-sync");
    assert_eq!(data.get_default_username(), Some("alice"));
    assert_eq!(Data::new(text("dir"), None).get_default_username(), None);
}

#[test]
fn the_default_user_name_is_set_and_removed() {
    let mut data = Data::new(text("dir"), None);
    data.set_default_username(text("bob"));
    assert_eq!(data.get_default_username(), Some("bob"));
    data.set_default_username(text("carol"));
    assert_eq!(data.get_default_username(), Some("carol"));
    data.remove_default_username();
    assert_eq!(data.get_default_username(), None);
    assert_eq!(data.config_dir(), "dir");
}

#[test]
fn the_given_user_name_comes_first() {
    let data = Data::new(text("dir"), Some(text("alice")));
    assert_eq!(get_username(Some(text("bob")), &data), Some((text("bob"), false)));
    assert_eq!(get_username(Some(text("alice")), &data), Some((text("alice"), false)));
}

#[test]
fn the_default_user_name_comes_second() {
    let data = Data::new(text("dir"), Some(text("alice")));
    assert_eq!(get_username(None, &data), Some((text("alice"), true)));
}

#[test]
fn no_user_name_without_either() {
    assert_eq!(get_username(None, &Data::new(text("dir"), None)), None);
}

#[test]
fn the_file_of_the_default_user_name() {
    assert_eq!(DEFAULT_USERNAME_FILE, "default_username.txt");
}
