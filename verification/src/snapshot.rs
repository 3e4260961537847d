//! Snapshots: what the remote host is believed to hold, as a mapping from
//! relative path to content digest.

use fxhash::FxHashMap;
use vstd::prelude::*;

verus! {

/// A path relative to the sync root, paired with the digest of the content
/// found there.
#[derive(Debug)]
pub struct FileRecord {
    pub path: String,
    pub digest: String,
}

impl View for FileRecord {
    type V = (Seq<char>, Seq<char>);

    open spec fn view(&self) -> (Seq<char>, Seq<char>) {
        (self.path@, self.digest@)
    }
}

/// The mapping that a sequence of records stands for: where a path occurs
/// more than once, the record furthest back decides.
pub open spec fn entries_map(entries: Seq<(Seq<char>, Seq<char>)>) -> Map<Seq<char>, Seq<char>>
    decreases entries.len(),
{
    if entries.len() == 0 {
        Map::empty()
    } else {
        entries_map(entries.drop_last()).insert(entries.last().0, entries.last().1)
    }
}

/// No path occurs in two records.
pub open spec fn distinct_paths(entries: Seq<(Seq<char>, Seq<char>)>) -> bool {
    forall|i: int, j: int|
        0 <= i < j < entries.len() ==> (#[trigger] entries[i]).0 != (#[trigger] entries[j]).0
}

/// Some record of `entries` is for `path`.
pub open spec fn has_path(entries: Seq<(Seq<char>, Seq<char>)>, path: Seq<char>) -> bool {
    exists|i: int| 0 <= i < entries.len() && (#[trigger] entries[i]).0 == path
}

/// The place of the first record for `path`, or the number of records where
/// there is none.
pub open spec fn path_index(entries: Seq<(Seq<char>, Seq<char>)>, path: Seq<char>) -> int
    decreases entries.len(),
{
    if entries.len() == 0 {
        0
    } else if entries[0].0 == path {
        0
    } else {
        1 + path_index(entries.drop_first(), path)
    }
}

/// `entries` with the digest of `path` set to `digest`: in place where the
/// path has a record, at the end where it has none.
pub open spec fn upsert(
    entries: Seq<(Seq<char>, Seq<char>)>,
    path: Seq<char>,
    digest: Seq<char>,
) -> Seq<(Seq<char>, Seq<char>)> {
    let i = path_index(entries, path);
    if i < entries.len() {
        entries.update(i, (path, digest))
    } else {
        entries.push((path, digest))
    }
}

/// What `path_index` finds: a place before which no record is for `path`,
/// and at which a record for `path` stands or the records end.
pub proof fn lemma_path_index(entries: Seq<(Seq<char>, Seq<char>)>, path: Seq<char>)
    ensures
        0 <= path_index(entries, path) <= entries.len(),
        path_index(entries, path) < entries.len() ==> entries[path_index(entries, path)].0 == path,
        forall|j: int| 0 <= j < path_index(entries, path) ==> (#[trigger] entries[j]).0 != path,
        path_index(entries, path) < entries.len() <==> has_path(entries, path),
    decreases entries.len(),
{
    if entries.len() == 0 {
    } else if entries[0].0 == path {
    } else {
        let rest = entries.drop_first();
        lemma_path_index(rest, path);
        let k = path_index(rest, path);
        assert forall|j: int| 0 <= j < 1 + k implies (#[trigger] entries[j]).0 != path by {
            if j > 0 {
                assert(rest[j - 1] == entries[j]);
            }
        }
        if k < rest.len() {
            assert(rest[k] == entries[k + 1]);
        }
        if has_path(entries, path) {
            let w = choose|i: int| 0 <= i < entries.len() && (#[trigger] entries[i]).0 == path;
            assert(rest[w - 1] == entries[w]);
        }
    }
}

/// The mapping of a sequence of records holds a path exactly when some
/// record is for it.
pub proof fn lemma_map_has_path(entries: Seq<(Seq<char>, Seq<char>)>, path: Seq<char>)
    ensures
        entries_map(entries).contains_key(path) <==> has_path(entries, path),
        entries_map(entries).dom().finite(),
    decreases entries.len(),
{
    if entries.len() > 0 {
        let front = entries.drop_last();
        lemma_map_has_path(front, path);
        if has_path(front, path) {
            let w = choose|i: int| 0 <= i < front.len() && (#[trigger] front[i]).0 == path;
            assert(entries[w] == front[w]);
        }
        if has_path(entries, path) && path != entries.last().0 {
            let w = choose|i: int| 0 <= i < entries.len() && (#[trigger] entries[i]).0 == path;
            assert(front[w] == entries[w]);
        }
        if path == entries.last().0 {
            assert(entries[entries.len() - 1].0 == path);
        }
    }
}

/// With no path in two records, the mapping holds each record's digest at
/// its path.
pub proof fn lemma_map_at(entries: Seq<(Seq<char>, Seq<char>)>, i: int)
    requires
        distinct_paths(entries),
        0 <= i < entries.len(),
    ensures
        entries_map(entries).contains_key(entries[i].0),
        entries_map(entries)[entries[i].0] == entries[i].1,
    decreases entries.len(),
{
    let front = entries.drop_last();
    if i < entries.len() - 1 {
        assert forall|a: int, b: int| 0 <= a < b < front.len() implies (#[trigger] front[a]).0 != (
        #[trigger] front[b]).0 by {
            assert(front[a] == entries[a] && front[b] == entries[b]);
        }
        lemma_map_at(front, i);
        assert(front[i] == entries[i]);
        assert(entries[i].0 != entries[entries.len() - 1].0);
    }
}

/// Setting a digest changes the mapping at that path and nowhere else, and
/// keeps the paths distinct.
pub proof fn lemma_upsert(
    entries: Seq<(Seq<char>, Seq<char>)>,
    path: Seq<char>,
    digest: Seq<char>,
)
    requires
        distinct_paths(entries),
    ensures
        distinct_paths(upsert(entries, path, digest)),
        entries_map(upsert(entries, path, digest)) == entries_map(entries).insert(path, digest),
{
    lemma_path_index(entries, path);
    let i = path_index(entries, path);
    let after = upsert(entries, path, digest);
    if i < entries.len() {
        assert forall|a: int, b: int| 0 <= a < b < after.len() implies (#[trigger] after[a]).0 != (
        #[trigger] after[b]).0 by {
            assert(after[a].0 == entries[a].0);
            assert(after[b].0 == entries[b].0);
        }
    } else {
        assert forall|a: int, b: int| 0 <= a < b < after.len() implies (#[trigger] after[a]).0 != (
        #[trigger] after[b]).0 by {
            if b == entries.len() {
                assert(entries[a].0 != path);
            } else {
                assert(after[a] == entries[a] && after[b] == entries[b]);
            }
        }
    }
    let k = if i < entries.len() { i } else { entries.len() as int };
    assert(after[k] == (path, digest));
    let want = entries_map(entries).insert(path, digest);
    let got = entries_map(after);
    assert forall|p: Seq<char>| got.contains_key(p) <==> want.contains_key(p) by {
        lemma_map_has_path(after, p);
        lemma_map_has_path(entries, p);
        if has_path(after, p) && p != path {
            let w = choose|k: int| 0 <= k < after.len() && (#[trigger] after[k]).0 == p;
            assert(entries[w].0 == p);
        }
        if has_path(entries, p) {
            let w = choose|k: int| 0 <= k < entries.len() && (#[trigger] entries[k]).0 == p;
            assert(after[w].0 == p);
        }
    }
    assert forall|p: Seq<char>| got.contains_key(p) implies got[p] == want[p] by {
        lemma_map_has_path(after, p);
        let w = choose|k: int| 0 <= k < after.len() && (#[trigger] after[k]).0 == p;
        lemma_map_at(after, w);
        if p != path {
            assert(w != k);
            assert(after[w] == entries[w]);
            lemma_map_at(entries, w);
        } else {
            lemma_map_at(after, k);
        }
    }
    assert(got =~= want);
}

/// `fxhash::FxHasher`, the hasher of the map. Nothing is said of it.
#[verifier::external_type_specification]
#[verifier::external_body]
pub struct ExFxHasher(fxhash::FxHasher);

/// `std::hash::BuildHasherDefault`, which makes the hashers of the map.
/// Nothing is said of it.
#[verifier::external_type_specification]
#[verifier::external_body]
#[verifier::reject_recursive_types(H)]
pub struct ExBuildHasherDefault<H>(std::hash::BuildHasherDefault<H>);

/// The map of a snapshot: a hash map from path to digest.
pub type DigestMap = FxHashMap<String, String>;

/// What a map holds: for each path, a digest.
pub uninterp spec fn map_digests(map: DigestMap) -> Map<Seq<char>, Seq<char>>;

/// `FxHashMap::default`. Believed of it: the map that it makes holds
/// nothing.
#[verifier::external_body]
fn map_new() -> (fresh: DigestMap)
    ensures
        map_digests(fresh) == (Map::<Seq<char>, Seq<char>>::empty()),
{
    FxHashMap::default()
}

/// `HashMap::insert`, on an `FxHashMap`. Believed of it: afterwards the map
/// holds `digest` for `path`, and for every other path what it held before.
#[verifier::external_body]
fn map_insert(map: &mut DigestMap, path: String, digest: String)
    ensures
        map_digests(*final(map)) == map_digests(*old(map)).insert(path@, digest@),
{
    map.insert(path, digest);
}

/// `HashMap::get`, on an `FxHashMap`. Believed of it: it finds the digest
/// that the map holds for `path`, and finds none where the map holds none.
#[verifier::external_body]
fn map_get<'a>(map: &'a DigestMap, path: &str) -> (digest: Option<&'a String>)
    ensures
        digest is Some <==> map_digests(*map).contains_key(path@),
        digest is Some ==> digest->0@ == map_digests(*map)[path@],
{
    map.get(path)
}

/// The records that a list of paths and a map of digests stand for: each
/// path, in order, with the digest that the map holds for it.
spec fn listed(paths: Seq<String>, digests: Map<Seq<char>, Seq<char>>) -> Seq<
    (Seq<char>, Seq<char>),
> {
    Seq::new(paths.len(), |i: int| (paths[i]@, digests[paths[i]@]))
}

/// The list names each path once, and the map holds a digest for just the
/// paths of the list.
spec fn lists_the_map(paths: Seq<String>, digests: Map<Seq<char>, Seq<char>>) -> bool {
    &&& distinct_paths(listed(paths, digests))
    &&& forall|path: Seq<char>| #[trigger]
        digests.contains_key(path) <==> has_path(listed(paths, digests), path)
}

/// Where the list and the map go together, the mapping of the records is
/// the map.
proof fn lemma_listed_is_the_map(paths: Seq<String>, digests: Map<Seq<char>, Seq<char>>)
    requires
        lists_the_map(paths, digests),
    ensures
        entries_map(listed(paths, digests)) == digests,
{
    let entries = listed(paths, digests);
    let mapping = entries_map(entries);
    assert forall|path: Seq<char>| mapping.contains_key(path) <==> digests.contains_key(
        path,
    ) by {
        lemma_map_has_path(entries, path);
    }
    assert forall|path: Seq<char>| mapping.contains_key(path) implies mapping[path]
        == digests[path] by {
        lemma_map_has_path(entries, path);
        let w = choose|i: int| 0 <= i < entries.len() && (#[trigger] entries[i]).0 == path;
        lemma_map_at(entries, w);
    }
    assert(mapping =~= digests);
}

/// Setting a digest in the map, and naming the path at the end of the list
/// where the map did not hold it, sets the digest in the records, and the
/// list and the map still go together.
proof fn lemma_listed_set(
    paths: Seq<String>,
    digests: Map<Seq<char>, Seq<char>>,
    path: String,
    digest: Seq<char>,
)
    requires
        lists_the_map(paths, digests),
    ensures
        ({
            let longer = if digests.contains_key(path@) {
                paths
            } else {
                paths.push(path)
            };
            &&& listed(longer, digests.insert(path@, digest)) == upsert(
                listed(paths, digests),
                path@,
                digest,
            )
            &&& lists_the_map(longer, digests.insert(path@, digest))
        }),
{
    let before = listed(paths, digests);
    let longer = if digests.contains_key(path@) {
        paths
    } else {
        paths.push(path)
    };
    let set = digests.insert(path@, digest);
    let after = listed(longer, set);
    lemma_path_index(before, path@);
    lemma_upsert(before, path@, digest);
    let i = path_index(before, path@);
    if digests.contains_key(path@) {
        assert forall|j: int| 0 <= j < before.len() implies after[j] == before.update(
            i,
            (path@, digest),
        )[j] by {
            if j != i {
                assert(before[j].0 != before[i].0);
            }
        }
        assert(after =~= before.update(i, (path@, digest)));
    } else {
        assert forall|j: int| 0 <= j < before.len() implies after[j] == before[j] by {
            assert(before[j].0 != path@);
        }
        assert(after =~= before.push((path@, digest)));
    }
    assert(after == upsert(before, path@, digest));
    assert forall|other: Seq<char>| #[trigger]
        set.contains_key(other) <==> has_path(after, other) by {
        lemma_map_has_path(after, other);
        lemma_map_has_path(before, other);
    }
}

/// A mapping from relative path to digest: a hash map that holds the digest
/// of every path, and the list of the paths in the order in which they first
/// came, each once.
#[derive(Debug)]
pub struct Snapshot {
    paths: Vec<String>,
    digests: DigestMap,
}

impl View for Snapshot {
    type V = Map<Seq<char>, Seq<char>>;

    /// The mapping from path to digest.
    open spec fn view(&self) -> Map<Seq<char>, Seq<char>> {
        entries_map(self.entries())
    }
}

impl Snapshot {
    /// The records, in order, each as a pair of path and digest.
    pub closed spec fn entries(&self) -> Seq<(Seq<char>, Seq<char>)> {
        listed(self.paths@, map_digests(self.digests))
    }

    #[verifier::type_invariant]
    spec fn list_and_map_go_together(&self) -> bool {
        lists_the_map(self.paths@, map_digests(self.digests))
    }

    /// The snapshot without records.
    pub fn new() -> (snapshot: Snapshot)
        ensures
            snapshot.entries() == Seq::<(Seq<char>, Seq<char>)>::empty(),
            snapshot@ == Map::<Seq<char>, Seq<char>>::empty(),
    {
        let paths: Vec<String> = Vec::new();
        let digests = map_new();
        assert(listed(paths@, map_digests(digests)) =~= Seq::empty());
        Snapshot { paths, digests }
    }

    /// The number of records, which is the number of paths: no path has two
    /// records.
    pub fn len(&self) -> (n: usize)
        ensures
            n == self.entries().len(),
            distinct_paths(self.entries()),
    {
        proof {
            use_type_invariant(self);
        }
        self.paths.len()
    }

    /// The record at place `i`.
    pub fn record(&self, i: usize) -> (record: FileRecord)
        requires
            i < self.entries().len(),
        ensures
            record@ == self.entries()[i as int],
            self@.contains_key(record.path@),
            self@[record.path@] == record.digest@,
    {
        proof {
            use_type_invariant(self);
            lemma_map_at(self.entries(), i as int);
            assert(self.entries()[i as int].0 == self.paths@[i as int]@);
        }
        let path = self.paths[i].clone();
        let digest = map_get(&self.digests, path.as_str()).unwrap().clone();
        FileRecord { path, digest }
    }

    /// Whether `path` has a record.
    pub fn contains_key(&self, path: &str) -> (found: bool)
        ensures
            found == self@.contains_key(path@),
    {
        proof {
            use_type_invariant(self);
            lemma_listed_is_the_map(self.paths@, map_digests(self.digests));
        }
        map_get(&self.digests, path).is_some()
    }

    /// The digest recorded for `path`, if there is one.
    pub fn get(&self, path: &str) -> (digest: Option<&String>)
        ensures
            match digest {
                Some(d) => self@.contains_key(path@) && self@[path@] == d@,
                None => !self@.contains_key(path@),
            },
    {
        proof {
            use_type_invariant(self);
            lemma_listed_is_the_map(self.paths@, map_digests(self.digests));
        }
        map_get(&self.digests, path)
    }

    /// Records `digest` for `path`: in place of the digest that the path
    /// had, or as a new record at the end.
    pub fn insert(&mut self, path: String, digest: String)
        ensures
            final(self).entries() == upsert(old(self).entries(), path@, digest@),
            final(self)@ == old(self)@.insert(path@, digest@),
    {
        proof {
            use_type_invariant(&*self);
            lemma_upsert(self.entries(), path@, digest@);
            lemma_listed_set(self.paths@, map_digests(self.digests), path, digest@);
        }
        let known = map_get(&self.digests, path.as_str()).is_some();
        let mut taken = Snapshot::new();
        std::mem::swap(&mut taken, self);
        let Snapshot { mut paths, mut digests } = taken;
        if !known {
            paths.push(path.clone());
        }
        map_insert(&mut digests, path, digest);
        *self = Snapshot { paths, digests };
    }
}

} // verus!
