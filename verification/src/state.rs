//! The persisted snapshot: a text of one record per line, the path and the
//! digest of a record joined by a colon.

use vstd::prelude::*;
use vstd::std_specs::iter::IteratorSpec;

use crate::neocities::Entry;
use crate::snapshot::{upsert, Snapshot};
use crate::text::strings_view;

verus! {

/// The place of the first `c` in `s`, or the length of `s` where there is
/// none.
pub open spec fn first_index_of(s: Seq<char>, c: char) -> nat
    decreases s.len(),
{
    if s.len() == 0 {
        0
    } else if s[0] == c {
        0
    } else {
        1 + first_index_of(s.drop_first(), c)
    }
}

/// A line as it is read: without the carriage return that may stand before
/// its line feed.
pub open spec fn without_return(line: Seq<char>) -> Seq<char> {
    if line.len() > 0 && line.last() == '\r' {
        line.drop_last()
    } else {
        line
    }
}

/// The lines of a text. A line ends at a line feed, or at the end of the
/// text; a carriage return before the line feed belongs to the line's end.
/// Nothing follows the last line feed.
pub open spec fn lines(text: Seq<char>) -> Seq<Seq<char>>
    decreases text.len(),
{
    let n = first_index_of(text, '\n') as int;
    if text.len() == 0 {
        Seq::empty()
    } else if n >= text.len() {
        seq![text]
    } else {
        seq![without_return(text.take(n))] + lines(text.skip(n + 1))
    }
}

/// The record that a line holds: the path before its first colon and the
/// digest after it. A line without a colon holds none.
pub open spec fn line_record(line: Seq<char>) -> Option<(Seq<char>, Seq<char>)> {
    let n = first_index_of(line, ':') as int;
    if n < line.len() {
        Some((line.take(n), line.skip(n + 1)))
    } else {
        None
    }
}

/// The records of a sequence of lines, in order.
pub open spec fn line_records(lines: Seq<Seq<char>>) -> Seq<(Seq<char>, Seq<char>)>
    decreases lines.len(),
{
    if lines.len() == 0 {
        Seq::empty()
    } else {
        let front = line_records(lines.drop_last());
        match line_record(lines.last()) {
            Some(record) => front.push(record),
            None => front,
        }
    }
}

/// The records of a remote listing, in order: one for each entry that has a
/// digest.
pub open spec fn listed_records(entries: Seq<Entry>) -> Seq<(Seq<char>, Seq<char>)>
    decreases entries.len(),
{
    if entries.len() == 0 {
        Seq::empty()
    } else {
        let front = listed_records(entries.drop_last());
        match entries.last().sha1_hash {
            Some(digest) => front.push((entries.last().path@, digest@)),
            None => front,
        }
    }
}

/// The records of a snapshot that is built by setting digests in order.
pub open spec fn collected(records: Seq<(Seq<char>, Seq<char>)>) -> Seq<(Seq<char>, Seq<char>)>
    decreases records.len(),
{
    if records.len() == 0 {
        Seq::empty()
    } else {
        upsert(collected(records.drop_last()), records.last().0, records.last().1)
    }
}

/// The text of a sequence of records: for each, its path, a colon, its
/// digest and a line feed.
pub open spec fn rendered(records: Seq<(Seq<char>, Seq<char>)>) -> Seq<char>
    decreases records.len(),
{
    if records.len() == 0 {
        Seq::empty()
    } else {
        rendered(records.drop_last()) + records.last().0 + seq![':'] + records.last().1 + seq![
            '\n',
        ]
    }
}

/// What `first_index_of` finds: a place before which `c` does not occur,
/// and at which `c` stands or `s` ends.
pub proof fn lemma_first_index(s: Seq<char>, c: char)
    ensures
        first_index_of(s, c) <= s.len(),
        first_index_of(s, c) < s.len() ==> s[first_index_of(s, c) as int] == c,
        forall|j: int| 0 <= j < first_index_of(s, c) ==> s[j] != c,
    decreases s.len(),
{
    if s.len() > 0 && s[0] != c {
        let rest = s.drop_first();
        lemma_first_index(rest, c);
        assert forall|j: int| 0 <= j < first_index_of(s, c) implies s[j] != c by {
            if j > 0 {
                assert(rest[j - 1] == s[j]);
            }
        }
    }
}

/// `first_index_of` is the one place before which `c` does not occur and at
/// which `c` stands or `s` ends.
pub proof fn lemma_first_index_of(s: Seq<char>, c: char, n: int)
    requires
        0 <= n <= s.len(),
        n < s.len() ==> s[n] == c,
        forall|j: int| 0 <= j < n ==> s[j] != c,
    ensures
        first_index_of(s, c) == n,
    decreases s.len(),
{
    if s.len() > 0 && n > 0 {
        let rest = s.drop_first();
        assert(s[0] != c);
        assert forall|j: int| 0 <= j < n - 1 implies rest[j] != c by {
            assert(rest[j] == s[j + 1]);
        }
        lemma_first_index_of(rest, c, n - 1);
    }
}

/// Splits `text` at the first `c`: what stands before it, and what stands
/// after it where `c` occurs.
pub fn split_at_first(text: &str, c: char) -> (parts: (String, Option<String>))
    ensures
        parts.0@ == text@.take(first_index_of(text@, c) as int),
        match parts.1 {
            Some(after) => first_index_of(text@, c) < text@.len() && after@ == text@.skip(
                first_index_of(text@, c) as int + 1,
            ),
            None => first_index_of(text@, c) == text@.len(),
        },
{
    let mut before = String::new();
    let mut after: Option<String> = None;
    let mut it = text.chars();
    let ghost mut i: int = 0;
    let ghost mut n: int = 0;
    loop
        invariant
            0 <= i <= text@.len(),
            it.remaining() == text@.skip(i),
            match after {
                Some(a) => n < i && text@[n] == c && a@ == text@.subrange(n + 1, i),
                None => n == i,
            },
            0 <= n <= i,
            forall|j: int| 0 <= j < n ==> text@[j] != c,
            before@ == text@.take(n),
        decreases text@.len() - i,
    {
        match it.next() {
            Some(x) => {
                proof {
                    assert(text@.skip(i).drop_first() == text@.skip(i + 1));
                }
                match after {
                    Some(mut a) => {
                        a.push(x);
                        proof {
                            assert(text@.subrange(n + 1, i + 1) == text@.subrange(n + 1, i).push(
                                x,
                            ));
                        }
                        after = Some(a);
                    },
                    None => {
                        if x == c {
                            after = Some(String::new());
                            proof {
                                assert(text@.subrange(n + 1, i + 1) == Seq::<char>::empty());
                            }
                        } else {
                            before.push(x);
                            proof {
                                assert(text@.take(n + 1) == text@.take(n).push(x));
                                n = n + 1;
                            }
                        }
                    },
                }
                proof {
                    i = i + 1;
                }
            },
            None => {
                proof {
                    lemma_first_index_of(text@, c, n);
                    assert(text@.subrange(n + 1, i) == text@.skip(n + 1));
                }
                return (before, after);
            },
        }
    }
}

/// The lines of `text`.
pub fn split_lines(text: &str) -> (out: Vec<String>)
    ensures
        strings_view(out@) == lines(text@),
{
    let mut out: Vec<String> = Vec::new();
    let mut line = String::new();
    // A carriage return that was read and not yet written: it is dropped if
    // a line feed follows, and written if anything else does.
    let mut pending = false;
    let mut it = text.chars();
    let ghost mut i: int = 0;
    let ghost mut start: int = 0;
    proof {
        assert(text@.skip(0) == text@);
        assert(strings_view(out@) + lines(text@) == lines(text@));
        assert(text@.subrange(0, 0) == Seq::<char>::empty());
    }
    loop
        invariant
            0 <= start <= i <= text@.len(),
            it.remaining() == text@.skip(i),
            lines(text@) == strings_view(out@) + lines(text@.skip(start)),
            forall|j: int| start <= j < i ==> text@[j] != '\n',
            text@.subrange(start, i) == if pending {
                line@.push('\r')
            } else {
                line@
            },
            !pending ==> line@.len() == 0 || line@.last() != '\r',
        decreases text@.len() - i,
    {
        let ghost rest = text@.skip(start);
        let ghost current = text@.subrange(start, i);
        match it.next() {
            Some(c) => {
                proof {
                    assert(text@.skip(i).drop_first() == text@.skip(i + 1));
                    assert(text@.subrange(start, i + 1) == current.push(c));
                }
                if c == '\n' {
                    proof {
                        assert forall|j: int| 0 <= j < i - start implies rest[j] != '\n' by {
                            assert(rest[j] == text@[start + j]);
                        }
                        lemma_first_index_of(rest, '\n', i - start);
                        assert(rest.take(i - start) == current);
                        assert(rest.skip(i - start + 1) == text@.skip(i + 1));
                        assert(without_return(current) == line@);
                    }
                    let ghost before = out@;
                    out.push(line);
                    proof {
                        assert(strings_view(out@) == strings_view(before).push(line@));
                        assert(strings_view(before) + (seq![line@] + lines(text@.skip(i + 1)))
                            == strings_view(out@) + lines(text@.skip(i + 1)));
                        assert(text@.subrange(i + 1, i + 1) == Seq::<char>::empty());
                        start = i + 1;
                    }
                    line = String::new();
                    pending = false;
                } else if c == '\r' {
                    if pending {
                        line.push('\r');
                    }
                    pending = true;
                } else {
                    if pending {
                        line.push('\r');
                    }
                    line.push(c);
                    pending = false;
                }
                proof {
                    i = i + 1;
                }
            },
            None => {
                proof {
                    assert(current == rest);
                    assert forall|j: int| 0 <= j < rest.len() implies rest[j] != '\n' by {
                        assert(rest[j] == text@[start + j]);
                    }
                    lemma_first_index_of(rest, '\n', rest.len() as int);
                }
                if pending {
                    line.push('\r');
                }
                if !line.as_str().is_empty() {
                    let ghost before = out@;
                    out.push(line);
                    proof {
                        assert(strings_view(out@) == strings_view(before).push(rest));
                        assert(lines(rest) == seq![rest]);
                    }
                } else {
                    proof {
                        assert(lines(rest) == Seq::<Seq<char>>::empty());
                    }
                }
                return out;
            },
        }
    }
}

/// Reads a persisted snapshot from the text of its file.
///
/// Every line that holds a colon gives a record: the path before the first
/// colon, the digest after it. A line without a colon is passed over. Where
/// a path comes twice, the later line decides.
pub fn read_state_file(contents: &str) -> (state: Snapshot)
    ensures
        state.entries() == collected(line_records(lines(contents@))),
{
    let mut state = Snapshot::new();
    let all = split_lines(contents);
    let ghost texts = strings_view(all@);
    proof {
        assert(texts.take(0) == Seq::<Seq<char>>::empty());
    }
    for line in it: all
        invariant
            texts == strings_view(all@),
            texts == lines(contents@),
            state.entries() == collected(line_records(texts.take(it.index() as int))),
    {
        proof {
            let i = it.index() as int;
            assert(texts.take(i + 1).drop_last() == texts.take(i));
            assert(texts.take(i + 1).last() == line@);
        }
        let ghost found = line_records(texts.take(it.index() as int));
        let (path, digest) = split_at_first(line.as_str(), ':');
        match digest {
            Some(digest) => {
                proof {
                    assert(found.push((path@, digest@)).drop_last() == found);
                }
                state.insert(path, digest);
            },
            None => {},
        }
    }
    proof {
        assert(texts.take(texts.len() as int) == texts);
    }
    state
}

/// Writes a snapshot as the text of its file: for each record, in order, its
/// path, a colon, its digest and a line feed.
pub fn write_state_file(state: &Snapshot) -> (contents: String)
    ensures
        contents@ == rendered(state.entries()),
{
    let mut contents = String::new();
    let n = state.len();
    let ghost entries = state.entries();
    let mut i: usize = 0;
    proof {
        assert(entries.take(0) == Seq::<(Seq<char>, Seq<char>)>::empty());
    }
    while i < n
        invariant
            i <= n,
            n == entries.len(),
            entries == state.entries(),
            contents@ == rendered(entries.take(i as int)),
        decreases n - i,
    {
        let record = state.record(i);
        proof {
            assert(entries.take(i + 1).drop_last() == entries.take(i as int));
            assert(entries.take(i + 1).last() == entries[i as int]);
        }
        contents.append(record.path.as_str());
        contents.push(':');
        contents.append(record.digest.as_str());
        contents.push('\n');
        i += 1;
    }
    proof {
        assert(entries.take(i as int) == entries);
    }
    contents
}

/// The snapshot that a remote listing stands for: a record for each entry
/// that has a digest. Entries without one are directories.
pub fn fetch_state(response: Vec<Entry>) -> (state: Snapshot)
    ensures
        state.entries() == collected(listed_records(response@)),
{
    let mut state = Snapshot::new();
    let ghost listing = response@;
    proof {
        assert(listing.take(0) == Seq::<Entry>::empty());
    }
    for file in it: response
        invariant
            listing == response@,
            state.entries() == collected(listed_records(listing.take(it.index() as int))),
    {
        proof {
            let i = it.index() as int;
            assert(listing.take(i + 1).drop_last() == listing.take(i));
            assert(listing.take(i + 1).last() == file);
        }
        let ghost found = listed_records(listing.take(it.index() as int));
        let Entry { path, sha1_hash } = file;
        match sha1_hash {
            Some(digest) => {
                proof {
                    assert(found.push((path@, digest@)).drop_last() == found);
                }
                state.insert(path, digest);
            },
            None => {},
        }
    }
    proof {
        assert(listing.take(listing.len() as int) == listing);
    }
    state
}

} // verus!
