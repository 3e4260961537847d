//! Relative paths in forward-slash form, and what is read off them.

use vstd::prelude::*;
use vstd::std_specs::iter::IteratorSpec;

use crate::text::option_view;

verus! {

/// The place of the last `c` in `s`, or -1 where there is none.
pub open spec fn last_index_of(s: Seq<char>, c: char) -> int
    decreases s.len(),
{
    if s.len() == 0 {
        -1
    } else if s.last() == c {
        s.len() - 1
    } else {
        last_index_of(s.drop_last(), c)
    }
}

/// The last segment of a path: what follows its last slash.
pub open spec fn file_name(path: Seq<char>) -> Seq<char> {
    path.skip(last_index_of(path, '/') + 1)
}

/// The extension of a path: what follows the last dot of its file name,
/// where that dot is not the name's first character.
pub open spec fn extension_of(path: Seq<char>) -> Option<Seq<char>> {
    let name = file_name(path);
    let dot = last_index_of(name, '.');
    if dot <= 0 {
        None
    } else {
        Some(name.skip(dot + 1))
    }
}

pub proof fn lemma_last_index_of(s: Seq<char>, c: char)
    ensures
        -1 <= last_index_of(s, c) < s.len(),
        last_index_of(s, c) >= 0 ==> s[last_index_of(s, c)] == c,
        forall|j: int| last_index_of(s, c) < j < s.len() ==> s[j] != c,
    decreases s.len(),
{
    if s.len() > 0 && s.last() != c {
        let front = s.drop_last();
        lemma_last_index_of(front, c);
        assert forall|j: int| last_index_of(s, c) < j < s.len() implies s[j] != c by {
            if j < front.len() {
                assert(front[j] == s[j]);
            }
        }
    }
}

/// How the file name and the extension grow when a character is added to a
/// path.
pub proof fn lemma_extension_push(path: Seq<char>, c: char)
    ensures
        file_name(path.push(c)) == if c == '/' {
            Seq::<char>::empty()
        } else {
            file_name(path).push(c)
        },
        extension_of(path.push(c)) == if c == '/' {
            None
        } else if c == '.' {
            if file_name(path).len() == 0 {
                None
            } else {
                Some(Seq::<char>::empty())
            }
        } else {
            match extension_of(path) {
                Some(e) => Some(e.push(c)),
                None => None,
            }
        },
{
    let longer = path.push(c);
    assert(longer.drop_last() == path);
    lemma_last_index_of(path, '/');
    let slash = last_index_of(path, '/');
    let name = file_name(path);
    if c == '/' {
        assert(file_name(longer) == Seq::<char>::empty());
    } else {
        assert(file_name(longer) == name.push(c));
        let longer_name = name.push(c);
        assert(longer_name.drop_last() == name);
        lemma_last_index_of(name, '.');
        let dot = last_index_of(name, '.');
        if c == '.' {
            assert(longer_name.skip(name.len() as int + 1) == Seq::<char>::empty());
        } else if dot > 0 {
            assert(longer_name.skip(dot + 1) == name.skip(dot + 1).push(c));
        }
    }
}

/// The extension of `path`, if it has one.
pub fn extension(path: &str) -> (ext: Option<String>)
    ensures
        match ext {
            Some(e) => extension_of(path@) == Some(e@),
            None => extension_of(path@) is None,
        },
{
    let mut ext: Option<String> = None;
    let mut name_is_empty = true;
    let mut it = path.chars();
    let ghost mut i: int = 0;
    proof {
        assert(path@.take(0) == Seq::<char>::empty());
        assert(file_name(Seq::<char>::empty()) == Seq::<char>::empty());
    }
    loop
        invariant
            0 <= i <= path@.len(),
            it.remaining() == path@.skip(i),
            name_is_empty == (file_name(path@.take(i)).len() == 0),
            match ext {
                Some(e) => extension_of(path@.take(i)) == Some(e@),
                None => extension_of(path@.take(i)) is None,
            },
        decreases path@.len() - i,
    {
        match it.next() {
            Some(c) => {
                proof {
                    lemma_extension_push(path@.take(i), c);
                    assert(path@.take(i + 1) == path@.take(i).push(path@[i]));
                    assert(path@.skip(i).drop_first() == path@.skip(i + 1));
                }
                if c == '/' {
                    ext = None;
                    name_is_empty = true;
                } else if c == '.' {
                    if name_is_empty {
                        ext = None;
                    } else {
                        ext = Some(String::new());
                    }
                    name_is_empty = false;
                } else {
                    ext = match ext {
                        Some(mut e) => {
                            e.push(c);
                            Some(e)
                        },
                        None => None,
                    };
                    name_is_empty = false;
                }
                proof {
                    i = i + 1;
                }
            },
            None => {
                proof {
                    assert(path@.take(i) == path@);
                }
                return ext;
            },
        }
    }
}

/// `path` with every `separator` turned into a slash.
pub open spec fn slashed(path: Seq<char>, separator: char) -> Seq<char> {
    path.map_values(
        |c: char|
            if c == separator {
                '/'
            } else {
                c
            },
    )
}

/// Writes `path` in forward-slash form, given the separator that it was
/// written with.
pub fn to_slash(path: &str, separator: char) -> (out: String)
    ensures
        out@ == slashed(path@, separator),
{
    let mut out = String::new();
    let mut it = path.chars();
    let ghost mut i: int = 0;
    loop
        invariant
            0 <= i <= path@.len(),
            it.remaining() == path@.skip(i),
            out@ == slashed(path@.take(i), separator),
        decreases path@.len() - i,
    {
        match it.next() {
            Some(c) => {
                if c == separator {
                    out.push('/');
                } else {
                    out.push(c);
                }
                proof {
                    assert(path@.skip(i).drop_first() == path@.skip(i + 1));
                    assert(slashed(path@.take(i + 1), separator) =~= slashed(
                        path@.take(i),
                        separator,
                    ).push(
                        if path@[i] == separator {
                            '/'
                        } else {
                            path@[i]
                        },
                    ));
                    i = i + 1;
                }
            },
            None => {
                proof {
                    assert(path@.take(i) == path@);
                }
                return out;
            },
        }
    }
}

/// The route that `pathdiff` finds from `base` to `path`, as the host writes
/// it; none where it finds none.
pub uninterp spec fn route_between(path: Seq<char>, base: Seq<char>) -> Option<Seq<char>>;

/// `pathdiff::diff_paths`: the path that leads from `base` to `path`, if the
/// crate finds one. Believed of it: the result is a function of the two
/// paths alone; the crate reads them component by component, and looks at
/// neither disk nor environment.
#[verifier::external_body]
fn diff_paths(path: &str, base: &str) -> (route: Option<String>)
    ensures
        option_view(route) == route_between(path@, base@),
{
    pathdiff::diff_paths(path, base).and_then(|p| p.to_str().map(|s| s.to_owned()))
}

/// `std::path::MAIN_SEPARATOR`: the character that separates the components
/// of a path on the host. Nothing is claimed of it.
#[verifier::external_body]
fn main_separator() -> char {
    std::path::MAIN_SEPARATOR
}

/// A route as the host found it, in forward-slash form; no route stays no
/// route.
pub open spec fn slashed_route(route: Option<Seq<char>>, separator: char) -> Option<Seq<char>> {
    match route {
        Some(raw) => Some(slashed(raw, separator)),
        None => None,
    }
}

/// A route that is written with slashes is its own forward-slash form.
pub proof fn lemma_slashed_with_slash(route: Option<Seq<char>>)
    ensures
        slashed_route(route, '/') == route,
{
    if let Some(raw) = route {
        assert(slashed(raw, '/') =~= raw);
    }
}

/// Writes a route in forward-slash form, given the separator that it was
/// written with; hands on that there is none.
pub fn slash_route(route: Option<String>, separator: char) -> (relative: Option<String>)
    ensures
        option_view(relative) == slashed_route(option_view(route), separator),
{
    match route {
        Some(raw) => Some(to_slash(raw.as_str(), separator)),
        None => None,
    }
}

/// The path that leads from `base` to `path`, in forward-slash form; `None`
/// where there is no such path.
///
/// The route is the one that `pathdiff` finds. Where the host separates the
/// components of a path with a backslash, every backslash of the route is
/// written as a slash; on any other host the route stays as it is.
pub fn relative_path(path: &str, base: &str) -> (relative: Option<String>)
    ensures
        option_view(relative) == slashed_route(route_between(path@, base@), '/') || option_view(
            relative,
        ) == slashed_route(route_between(path@, base@), '\\'),
{
    let separator = if main_separator() == '\\' {
        '\\'
    } else {
        '/'
    };
    slash_route(diff_paths(path, base), separator)
}

} // verus!
