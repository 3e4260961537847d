//! Reconciliation: from a baseline snapshot and the files of the local tree
//! to a new snapshot, the files to upload and the paths to delete.

use vstd::prelude::*;

use crate::digest::{content_digest, digest_of};
use crate::path::{extension, extension_of};
use crate::snapshot::{upsert, Snapshot};
use crate::text::{option_view, strings_view, text_eq};

verus! {

/// A regular file of the local tree: its path relative to the sync root, in
/// forward-slash form, and its whole content.
#[derive(Debug)]
pub struct LocalFile {
    pub path: String,
    pub content: Vec<u8>,
}

impl View for LocalFile {
    type V = (Seq<char>, Seq<u8>);

    open spec fn view(&self) -> (Seq<char>, Seq<u8>) {
        (self.path@, self.content@)
    }
}

/// The files of a tree, each as a pair of path and content.
pub open spec fn files_view(files: Seq<LocalFile>) -> Seq<(Seq<char>, Seq<u8>)> {
    files.map_values(|f: LocalFile| f@)
}

/// An upload batch, each item as a pair of path and content.
pub open spec fn uploads_view(uploads: Seq<(String, Vec<u8>)>) -> Seq<(Seq<char>, Seq<u8>)> {
    uploads.map_values(|u: (String, Vec<u8>)| (u.0@, u.1@))
}

/// A list of extensions, each as its characters.
pub open spec fn types_view(types: Seq<&str>) -> Seq<Seq<char>> {
    types.map_values(|t: &str| t@)
}

/// An optional list of accepted extensions, as characters.
pub open spec fn allowed_view(allowed: Option<&[&str]>) -> Option<Seq<Seq<char>>> {
    match allowed {
        Some(types) => Some(types_view(types@)),
        None => None,
    }
}

/// The path has an extension, and `types` holds it.
pub open spec fn type_allowed(path: Seq<char>, types: Seq<Seq<char>>) -> bool {
    extension_of(path) matches Some(e) && types.contains(e)
}

/// The file at `path` takes part in a run: it is not the excluded file,
/// and where a list of accepted extensions is given, its extension is on it.
pub open spec fn eligible(
    path: Seq<char>,
    allowed: Option<Seq<Seq<char>>>,
    exclude: Option<Seq<char>>,
) -> bool {
    &&& exclude != Some(path)
    &&& (allowed matches Some(types) ==> type_allowed(path, types))
}

/// The baseline does not hold `digest` for `path`.
pub open spec fn is_modified(
    baseline: Map<Seq<char>, Seq<char>>,
    path: Seq<char>,
    digest: Seq<char>,
) -> bool {
    !(baseline.contains_key(path) && baseline[path] == digest)
}

/// The test for a file to be uploaded: it takes part, and the baseline does
/// not hold its digest for its path.
pub open spec fn needs_upload(
    baseline: Map<Seq<char>, Seq<char>>,
    allowed: Option<Seq<Seq<char>>>,
    exclude: Option<Seq<char>>,
) -> spec_fn((Seq<char>, Seq<u8>)) -> bool {
    |f: (Seq<char>, Seq<u8>)| eligible(f.0, allowed, exclude) && is_modified(
        baseline,
        f.0,
        digest_of(f.1),
    )
}

/// The test for a baseline record to be deleted: the new snapshot has no
/// record for its path, and the path is not that of the excluded file.
pub open spec fn is_gone(
    new_state: Map<Seq<char>, Seq<char>>,
    exclude: Option<Seq<char>>,
) -> spec_fn((Seq<char>, Seq<char>)) -> bool {
    |e: (Seq<char>, Seq<char>)| !new_state.contains_key(e.0) && exclude != Some(e.0)
}

/// The path of a record.
pub open spec fn path_of() -> spec_fn((Seq<char>, Seq<char>)) -> Seq<char> {
    |e: (Seq<char>, Seq<char>)| e.0
}

/// The records of the new snapshot: every file that takes part, in order,
/// sets the digest of its path.
pub open spec fn new_entries(
    files: Seq<(Seq<char>, Seq<u8>)>,
    allowed: Option<Seq<Seq<char>>>,
    exclude: Option<Seq<char>>,
) -> Seq<(Seq<char>, Seq<char>)>
    decreases files.len(),
{
    if files.len() == 0 {
        Seq::empty()
    } else {
        let before = new_entries(files.drop_last(), allowed, exclude);
        let file = files.last();
        if eligible(file.0, allowed, exclude) {
            upsert(before, file.0, digest_of(file.1))
        } else {
            before
        }
    }
}

/// The upload batch: the files that need an upload, in the order of the
/// tree.
pub open spec fn upload_batch(
    baseline: Map<Seq<char>, Seq<char>>,
    files: Seq<(Seq<char>, Seq<u8>)>,
    allowed: Option<Seq<Seq<char>>>,
    exclude: Option<Seq<char>>,
) -> Seq<(Seq<char>, Seq<u8>)> {
    files.filter(needs_upload(baseline, allowed, exclude))
}

/// The delete batch: the paths of the baseline that the new snapshot lacks,
/// in the order of the baseline, but for the path of the excluded file,
/// which is never deleted.
pub open spec fn delete_batch(
    baseline: Seq<(Seq<char>, Seq<char>)>,
    new_state: Map<Seq<char>, Seq<char>>,
    exclude: Option<Seq<char>>,
) -> Seq<Seq<char>> {
    baseline.filter(is_gone(new_state, exclude)).map_values(path_of())
}

/// Whether the extension of `path` is one of `types`.
pub fn has_allowed_type(path: &str, types: &[&str]) -> (allowed: bool)
    ensures
        allowed == type_allowed(path@, types_view(types@)),
{
    match extension(path) {
        Some(ext) => {
            let mut i: usize = 0;
            while i < types.len()
                invariant
                    i <= types@.len(),
                    extension_of(path@) == Some(ext@),
                    forall|j: int| 0 <= j < i ==> types_view(types@)[j] != ext@,
                decreases types@.len() - i,
            {
                if text_eq(types[i], ext.as_str()) {
                    assert(types_view(types@)[i as int] == ext@);
                    return true;
                }
                i += 1;
            }
            false
        },
        None => false,
    }
}

/// Whether the file at `path` takes part in a run. A caller asks this
/// before it reads the file.
pub fn is_eligible(path: &str, allowed: Option<&[&str]>, exclude: &Option<String>) -> (takes_part:
    bool)
    ensures
        takes_part == eligible(path@, allowed_view(allowed), option_view(*exclude)),
{
    let excluded = match exclude {
        Some(x) => text_eq(x.as_str(), path),
        None => false,
    };
    if excluded {
        return false;
    }
    match allowed {
        Some(types) => has_allowed_type(path, types),
        None => true,
    }
}

/// Records one file whose digest is known: sets the digest of its path in the
/// new snapshot, and adds the file to the upload batch where the baseline
/// does not hold that digest for the path.
pub fn record(
    current_state: &Snapshot,
    new_state: &mut Snapshot,
    to_be_uploaded: &mut Vec<(String, Vec<u8>)>,
    subpath: String,
    new_hash: String,
    file: Vec<u8>,
)
    ensures
        final(new_state).entries() == upsert(old(new_state).entries(), subpath@, new_hash@),
        final(new_state)@ == old(new_state)@.insert(subpath@, new_hash@),
        uploads_view(final(to_be_uploaded)@) == if is_modified(
            current_state@,
            subpath@,
            new_hash@,
        ) {
            uploads_view(old(to_be_uploaded)@).push((subpath@, file@))
        } else {
            uploads_view(old(to_be_uploaded)@)
        },
{
    let modified = match current_state.get(subpath.as_str()) {
        Some(old_hash) => !(*old_hash == new_hash),
        None => true,
    };
    new_state.insert(subpath.clone(), new_hash);
    if modified {
        let ghost before = to_be_uploaded@;
        to_be_uploaded.push((subpath, file));
        assert(uploads_view(to_be_uploaded@) =~= uploads_view(before).push((subpath@, file@)));
    }
}

/// Takes one file of the tree through a run: nothing happens for the
/// excluded file; any other file is hashed and recorded.
pub fn process(
    current_state: &Snapshot,
    new_state: &mut Snapshot,
    state_path_relative_to_path: &Option<String>,
    to_be_uploaded: &mut Vec<(String, Vec<u8>)>,
    subpath: String,
    file: Vec<u8>,
)
    ensures
        final(new_state).entries() == if option_view(*state_path_relative_to_path) == Some(
            subpath@,
        ) {
            old(new_state).entries()
        } else {
            upsert(old(new_state).entries(), subpath@, digest_of(file@))
        },
        uploads_view(final(to_be_uploaded)@) == if option_view(*state_path_relative_to_path)
            != Some(subpath@) && is_modified(current_state@, subpath@, digest_of(file@)) {
            uploads_view(old(to_be_uploaded)@).push((subpath@, file@))
        } else {
            uploads_view(old(to_be_uploaded)@)
        },
{
    let excluded = match state_path_relative_to_path {
        Some(x) => text_eq(x.as_str(), subpath.as_str()),
        None => false,
    };
    if excluded {
        return;
    }
    let new_hash = content_digest(file.as_slice());
    record(current_state, new_state, to_be_uploaded, subpath, new_hash, file);
}

/// The outcome of a reconciliation.
#[derive(Debug)]
pub struct Reconciliation {
    /// The snapshot that replaces the baseline once the remote host has
    /// taken the two batches.
    pub new_state: Snapshot,
    /// The files to upload, each with its whole content.
    pub to_be_uploaded: Vec<(String, Vec<u8>)>,
    /// The paths to delete on the remote host.
    pub to_be_deleted: Vec<String>,
}

/// The paths of `current_state` that `new_state` has no record for, in the
/// order of `current_state`, but for the path of the excluded file.
pub fn deletions(
    current_state: &Snapshot,
    new_state: &Snapshot,
    state_path_relative_to_path: &Option<String>,
) -> (to_be_deleted: Vec<String>)
    ensures
        strings_view(to_be_deleted@) == delete_batch(
            current_state.entries(),
            new_state@,
            option_view(*state_path_relative_to_path),
        ),
{
    let mut to_be_deleted: Vec<String> = Vec::new();
    let n = current_state.len();
    let ghost entries = current_state.entries();
    let ghost gone = is_gone(new_state@, option_view(*state_path_relative_to_path));
    let mut i: usize = 0;
    proof {
        assert(entries.take(0) == Seq::<(Seq<char>, Seq<char>)>::empty());
        reveal(Seq::filter);
        assert(entries.take(0).filter(gone) == Seq::<(Seq<char>, Seq<char>)>::empty());
    }
    while i < n
        invariant
            i <= n,
            n == entries.len(),
            entries == current_state.entries(),
            gone == is_gone(new_state@, option_view(*state_path_relative_to_path)),
            strings_view(to_be_deleted@) =~= entries.take(i as int).filter(gone).map_values(
                path_of(),
            ),
        decreases n - i,
    {
        let record = current_state.record(i);
        proof {
            assert(entries.take(i + 1) == entries.take(i as int).push(entries[i as int]));
            entries.take(i as int).lemma_filter_push(entries[i as int], gone);
        }
        let excluded = match state_path_relative_to_path {
            Some(x) => text_eq(x.as_str(), record.path.as_str()),
            None => false,
        };
        if !excluded && !new_state.contains_key(record.path.as_str()) {
            let ghost before = to_be_deleted@;
            let ghost kept = entries.take(i as int).filter(gone);
            to_be_deleted.push(record.path);
            proof {
                assert(gone(entries[i as int]));
                assert(strings_view(to_be_deleted@) =~= strings_view(before).push(
                    entries[i as int].0,
                ));
                assert(kept.push(entries[i as int]).map_values(path_of()) =~= kept.map_values(
                    path_of(),
                ).push(entries[i as int].0));
            }
        } else {
            assert(!gone(entries[i as int]));
        }
        i += 1;
    }
    proof {
        assert(entries.take(i as int) == entries);
    }
    to_be_deleted
}

/// Reconciles the local tree with the baseline.
///
/// Every file that takes part (see [`eligible`]) is hashed and recorded in
/// the new snapshot; it is put on the upload batch where the baseline does
/// not hold its digest for its path. The delete batch is every path of the
/// baseline that the new snapshot lacks: files gone from the tree, and files
/// whose type is no longer accepted. The excluded file is on neither batch,
/// whatever the baseline holds.
pub fn reconcile(
    current_state: &Snapshot,
    files: Vec<LocalFile>,
    allowed_file_types: Option<&[&str]>,
    state_path_relative_to_path: &Option<String>,
) -> (plan: Reconciliation)
    ensures
        plan.new_state.entries() == new_entries(
            files_view(files@),
            allowed_view(allowed_file_types),
            option_view(*state_path_relative_to_path),
        ),
        uploads_view(plan.to_be_uploaded@) == upload_batch(
            current_state@,
            files_view(files@),
            allowed_view(allowed_file_types),
            option_view(*state_path_relative_to_path),
        ),
        strings_view(plan.to_be_deleted@) == delete_batch(
            current_state.entries(),
            plan.new_state@,
            option_view(*state_path_relative_to_path),
        ),
{
    let mut new_state = Snapshot::new();
    let mut to_be_uploaded: Vec<(String, Vec<u8>)> = Vec::new();
    let ghost tree = files_view(files@);
    let ghost allowed = allowed_view(allowed_file_types);
    let ghost exclude = option_view(*state_path_relative_to_path);
    let ghost upload = needs_upload(current_state@, allowed, exclude);
    proof {
        assert(tree.take(0) == Seq::<(Seq<char>, Seq<u8>)>::empty());
        reveal(Seq::filter);
        assert(tree.take(0).filter(upload) == Seq::<(Seq<char>, Seq<u8>)>::empty());
    }
    for file in it: files
        invariant
            tree == files_view(files@),
            allowed == allowed_view(allowed_file_types),
            exclude == option_view(*state_path_relative_to_path),
            upload == needs_upload(current_state@, allowed, exclude),
            new_state.entries() == new_entries(tree.take(it.index() as int), allowed, exclude),
            uploads_view(to_be_uploaded@) == tree.take(it.index() as int).filter(upload),
    {
        proof {
            let i = it.index() as int;
            assert(tree.take(i + 1) == tree.take(i).push(tree[i]));
            assert(tree.take(i + 1).drop_last() == tree.take(i));
            tree.take(i).lemma_filter_push(tree[i], upload);
        }
        let LocalFile { path, content } = file;
        if is_eligible(path.as_str(), allowed_file_types, state_path_relative_to_path) {
            process(
                current_state,
                &mut new_state,
                state_path_relative_to_path,
                &mut to_be_uploaded,
                path,
                content,
            );
        }
    }
    proof {
        assert(tree.take(tree.len() as int) == tree);
    }
    let to_be_deleted = deletions(current_state, &new_state, state_path_relative_to_path);
    Reconciliation { new_state, to_be_uploaded, to_be_deleted }
}

} // verus!
