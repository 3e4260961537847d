//! What the program remembers between its runs: where its configuration
//! lives, and the user name to fall back on.

use vstd::prelude::*;

use crate::text::option_view;

verus! {

/// The name of the file, under the configuration directory, that holds the
/// default user name.
pub const DEFAULT_USERNAME_FILE: &'static str = "default_username.txt";

/// The configuration directory and the default user name, as they were
/// found on disk or last set.
#[derive(Debug)]
pub struct Data {
    config_dir: String,
    default_username: Option<String>,
}

impl Data {
    /// The data as found: the configuration directory, and the content of
    /// the default user name's file where it could be read.
    pub fn new(config_dir: String, default_username: Option<String>) -> (data: Self)
        ensures
            data.config_dir_view() == config_dir@,
            data.default_username_view() == option_view(default_username),
    {
        Self { config_dir, default_username }
    }

    /// The configuration directory.
    pub closed spec fn config_dir_view(&self) -> Seq<char> {
        self.config_dir@
    }

    /// The default user name, where there is one.
    pub closed spec fn default_username_view(&self) -> Option<Seq<char>> {
        option_view(self.default_username)
    }

    /// The configuration directory.
    pub fn config_dir(&self) -> (dir: &str)
        ensures
            dir@ == self.config_dir_view(),
    {
        self.config_dir.as_str()
    }

    /// The default user name, where there is one.
    pub fn get_default_username(&self) -> (username: Option<&str>)
        ensures
            match username {
                Some(name) => self.default_username_view() == Some(name@),
                None => self.default_username_view() is None,
            },
    {
        match &self.default_username {
            Some(name) => Some(name.as_str()),
            None => None,
        }
    }

    /// Makes `username` the default. The caller writes it to the file.
    pub fn set_default_username(&mut self, username: String)
        ensures
            final(self).default_username_view() == Some(username@),
            final(self).config_dir_view() == old(self).config_dir_view(),
    {
        self.default_username = Some(username);
    }

    /// Forgets the default user name. The caller removes the file.
    pub fn remove_default_username(&mut self)
        ensures
            final(self).default_username_view() is None,
            final(self).config_dir_view() == old(self).config_dir_view(),
    {
        self.default_username = None;
    }
}

/// The user name to act for, and whether it is the default one: the name
/// that was given, or else the default; none where there is neither.
pub fn get_username(username: Option<String>, data: &Data) -> (chosen: Option<(String, bool)>)
    ensures
        match username {
            Some(given) => chosen matches Some((name, is_default)) && name@ == given@
                && !is_default,
            None => match data.default_username_view() {
                Some(default) => chosen matches Some((name, is_default)) && name@ == default
                    && is_default,
                None => chosen is None,
            },
        },
{
    match username {
        Some(given) => Some((given, false)),
        None => match data.get_default_username() {
            Some(default) => Some((String::from_str(default), true)),
            None => None,
        },
    }
}

} // verus!
