//! A sync run: its errors, its counts, and the order of its steps.

use vstd::prelude::*;

use crate::neocities::{DeleteError, Entry, ListError, UnclassifiedError, UploadError};
use crate::reconcile::{
    delete_batch, files_view, new_entries, reconcile, types_view, upload_batch, uploads_view,
    LocalFile, Reconciliation,
};
use crate::snapshot::Snapshot;
use crate::state::{
    collected, fetch_state, line_records, lines, listed_records, read_state_file, rendered,
    write_state_file,
};
use crate::text::{option_view, strings_view};

verus! {

/// The extensions that the remote host takes from every account.
pub const ALLOWED_FILE_TYPES: [&'static str; 66] = [
    "apng", "asc", "atom", "avif", "bin", "cjs", "css", "csv", "dae", "eot", "epub",
    "geojson", "gif", "glb", "gltf", "gpg", "htm", "html", "ico", "jpeg", "jpg", "js",
    "json", "key", "kml", "knowl", "less", "manifest", "map", "markdown", "md", "mf",
    "mid", "midi", "mjs", "mtl", "obj", "opml", "osdx", "otf", "pdf", "pgp", "pls",
    "png", "py", "rdf", "resolveHandle", "rss", "sass", "scss", "svg", "text", "toml",
    "ts", "tsv", "ttf", "txt", "webapp", "webmanifest", "webp", "woff", "woff2", "xcf",
    "xml", "yaml", "yml",
];

/// `std::io::Error`: why a file could not be read or written. It is carried
/// from the caller to the caller, and never looked into.
#[verifier::external_type_specification]
#[verifier::external_body]
pub struct ExIoError(std::io::Error);

/// Why a run failed.
#[derive(Debug)]
pub enum SyncError {
    /// The key is not valid, or no longer.
    InvalidAuth,
    /// The remote host does not take a file of this type.
    InvalidFileType,
    /// The remote host lacks a file that was to be deleted: the baseline is
    /// out of date.
    MissingFiles,
    /// The request did not get through.
    ReqwestError(reqwest::Error),
    /// A file could not be read or written.
    IOError(std::io::Error),
    /// The remote host gave an error that has no name here.
    Unclassified(UnclassifiedError),
}

/// A failed listing as the failure of the run.
pub open spec fn list_failure(error: ListError) -> SyncError {
    match error {
        ListError::InvalidAuth => SyncError::InvalidAuth,
        ListError::ReqwestError(error) => SyncError::ReqwestError(error),
        ListError::Unclassified(error) => SyncError::Unclassified(error),
    }
}

/// A failed upload as the failure of the run.
pub open spec fn upload_failure(error: UploadError) -> SyncError {
    match error {
        UploadError::InvalidFileType => SyncError::InvalidFileType,
        UploadError::InvalidAuth => SyncError::InvalidAuth,
        UploadError::ReqwestError(error) => SyncError::ReqwestError(error),
        UploadError::Unclassified(error) => SyncError::Unclassified(error),
    }
}

/// A failed deletion as the failure of the run.
pub open spec fn delete_failure(error: DeleteError) -> SyncError {
    match error {
        DeleteError::MissingFiles => SyncError::MissingFiles,
        DeleteError::InvalidAuth => SyncError::InvalidAuth,
        DeleteError::ReqwestError(error) => SyncError::ReqwestError(error),
        DeleteError::Unclassified(error) => SyncError::Unclassified(error),
    }
}

impl From<ListError> for SyncError {
    fn from(error: ListError) -> (converted: Self) {
        match error {
            ListError::InvalidAuth => Self::InvalidAuth,
            ListError::ReqwestError(error) => Self::ReqwestError(error),
            ListError::Unclassified(error) => Self::Unclassified(error),
        }
    }
}

impl vstd::std_specs::convert::FromSpecImpl<ListError> for SyncError {
    open spec fn obeys_from_spec() -> bool {
        true
    }

    open spec fn from_spec(error: ListError) -> Self {
        list_failure(error)
    }
}

impl From<UploadError> for SyncError {
    fn from(error: UploadError) -> (converted: Self) {
        match error {
            UploadError::InvalidFileType => Self::InvalidFileType,
            UploadError::InvalidAuth => Self::InvalidAuth,
            UploadError::ReqwestError(error) => Self::ReqwestError(error),
            UploadError::Unclassified(error) => Self::Unclassified(error),
        }
    }
}

impl vstd::std_specs::convert::FromSpecImpl<UploadError> for SyncError {
    open spec fn obeys_from_spec() -> bool {
        true
    }

    open spec fn from_spec(error: UploadError) -> Self {
        upload_failure(error)
    }
}

impl From<DeleteError> for SyncError {
    fn from(error: DeleteError) -> (converted: Self) {
        match error {
            DeleteError::MissingFiles => Self::MissingFiles,
            DeleteError::InvalidAuth => Self::InvalidAuth,
            DeleteError::ReqwestError(error) => Self::ReqwestError(error),
            DeleteError::Unclassified(error) => Self::Unclassified(error),
        }
    }
}

impl vstd::std_specs::convert::FromSpecImpl<DeleteError> for SyncError {
    open spec fn obeys_from_spec() -> bool {
        true
    }

    open spec fn from_spec(error: DeleteError) -> Self {
        delete_failure(error)
    }
}

impl From<reqwest::Error> for SyncError {
    fn from(error: reqwest::Error) -> (converted: Self) {
        Self::ReqwestError(error)
    }
}

impl vstd::std_specs::convert::FromSpecImpl<reqwest::Error> for SyncError {
    open spec fn obeys_from_spec() -> bool {
        true
    }

    open spec fn from_spec(error: reqwest::Error) -> Self {
        Self::ReqwestError(error)
    }
}

impl From<std::io::Error> for SyncError {
    fn from(error: std::io::Error) -> (converted: Self) {
        Self::IOError(error)
    }
}

impl vstd::std_specs::convert::FromSpecImpl<std::io::Error> for SyncError {
    open spec fn obeys_from_spec() -> bool {
        true
    }

    open spec fn from_spec(error: std::io::Error) -> Self {
        Self::IOError(error)
    }
}

/// The counts of a run.
#[derive(Debug)]
pub struct SyncStats {
    pub uploaded: usize,
    pub deleted: usize,
}

/// What the user is told of a failure that is theirs to mend: what is
/// wrong, and what to do about it. The remedy reads `before`, `command`,
/// `after`, in this order; `command` is what to type, and may be empty.
#[derive(Debug)]
pub struct Advice {
    pub problem: &'static str,
    pub before: &'static str,
    pub command: &'static str,
    pub after: &'static str,
}

/// The advice for a failure. There is none for a failure that the user
/// cannot mend: a request that did not get through, a file that could not be
/// read or written, an error of the remote host that has no name here.
pub fn advice(error: &SyncError) -> (advice: Option<Advice>)
    ensures
        match *error {
            SyncError::InvalidAuth => {
                &&& advice matches Some(a)
                &&& a.problem@ == "Invalid session."@
                &&& a.before@ == "Use "@
                &&& a.command@ == "neocities-sync login"@
                &&& a.after@ == " to login again."@
            },
            SyncError::InvalidFileType => {
                &&& advice matches Some(a)
                &&& a.problem@ == "Invalid file type."@
                &&& a.before@ == "Use "@
                &&& a.command@ == "--ignore-disallowed-file-types"@
                &&& a.after@ == " to ignore such files."@
            },
            SyncError::MissingFiles => {
                &&& advice matches Some(a)
                &&& a.problem@ == "Out of sync."@
                &&& a.before@ == "Re-run the sync command after deleting your state file."@
                &&& a.command@ == ""@
                &&& a.after@ == ""@
            },
            _ => advice is None,
        },
{
    match error {
        SyncError::InvalidAuth => Some(
            Advice {
                problem: "Invalid session.",
                before: "Use ",
                command: "neocities-sync login",
                after: " to login again.",
            },
        ),
        SyncError::InvalidFileType => Some(
            Advice {
                problem: "Invalid file type.",
                before: "Use ",
                command: "--ignore-disallowed-file-types",
                after: " to ignore such files.",
            },
        ),
        SyncError::MissingFiles => Some(
            Advice {
                problem: "Out of sync.",
                before: "Re-run the sync command after deleting your state file.",
                command: "",
                after: "",
            },
        ),
        _ => None,
    }
}

/// What a run is set up with.
#[derive(Debug)]
pub struct SyncOptions {
    /// Pass over the files whose extension is not one of
    /// [`ALLOWED_FILE_TYPES`].
    pub ignore_disallowed_file_types: bool,
    /// The path of the state file relative to the sync root, where it has
    /// one.
    pub state_path_relative_to_path: Option<String>,
}

/// Where a run stands. A run goes through the steps in this order, and from
/// any of them to `Failed`.
#[derive(Debug)]
pub enum SyncState {
    /// The persisted snapshot is being read.
    ResolveBaseline,
    /// There is no persisted snapshot: the remote listing is being fetched
    /// in its place.
    FetchBaseline,
    /// The baseline is known; the files of the tree are being read.
    Reconcile { current_state: Snapshot },
    /// The two batches are with the remote host.
    DispatchRemote { new_state: Snapshot, stats: SyncStats },
    /// The remote host has taken both batches; the new snapshot is being
    /// written.
    PersistSnapshot { stats: SyncStats },
    /// The run is over and went well.
    Done(SyncStats),
    /// The run is over and went wrong. No snapshot was written.
    Failed(SyncError),
}

/// What the caller did on the run's behalf, and how it went.
#[derive(Debug)]
pub enum SyncEvent {
    /// The text of the state file; none where there is no such file; the
    /// failure where the file is there and could not be read.
    StateRead(Result<Option<String>, std::io::Error>),
    /// The remote listing.
    Listed(Result<Vec<Entry>, ListError>),
    /// The files of the tree.
    TreeRead(Result<Vec<LocalFile>, std::io::Error>),
    /// The answers to the upload and to the deletion.
    Dispatched(Result<(), UploadError>, Result<(), DeleteError>),
    /// The new snapshot was written, or could not be.
    Persisted(Result<(), std::io::Error>),
}

/// What the caller is to do next.
#[derive(Debug)]
pub enum SyncAction {
    /// Read the state file, and report `StateRead`.
    ReadState,
    /// Fetch the remote listing, and report `Listed`.
    FetchListing,
    /// Read the files of the tree that take part, and report `TreeRead`.
    ReadTree,
    /// Upload and delete, both at once, and report `Dispatched`.
    Dispatch { to_be_uploaded: Vec<(String, Vec<u8>)>, to_be_deleted: Vec<String> },
    /// Write `contents` to the state file, and report `Persisted`.
    Persist { contents: String },
    /// Nothing: the run is over, or the event was not the awaited one.
    Stop,
}

/// The event is the one that the state waits for.
pub open spec fn awaits(state: SyncState, event: SyncEvent) -> bool {
    match (state, event) {
        (SyncState::ResolveBaseline, SyncEvent::StateRead(_)) => true,
        (SyncState::FetchBaseline, SyncEvent::Listed(_)) => true,
        (SyncState::Reconcile { .. }, SyncEvent::TreeRead(_)) => true,
        (SyncState::DispatchRemote { .. }, SyncEvent::Dispatched(_, _)) => true,
        (SyncState::PersistSnapshot { .. }, SyncEvent::Persisted(_)) => true,
        _ => false,
    }
}

/// The extensions that a run with these options accepts; none where it
/// accepts all.
pub open spec fn accepted_types(options: SyncOptions) -> Option<Seq<Seq<char>>> {
    if options.ignore_disallowed_file_types {
        Some(types_view(ALLOWED_FILE_TYPES@))
    } else {
        None
    }
}

/// The run has failed with `error`, and nothing is left to do.
pub open spec fn fails_with(next: (SyncState, SyncAction), error: SyncError) -> bool {
    next.0 == SyncState::Failed(error) && next.1 is Stop
}

/// The baseline has the records `baseline`, and the tree is to be read.
pub open spec fn reconciles_from(
    next: (SyncState, SyncAction),
    baseline: Seq<(Seq<char>, Seq<char>)>,
) -> bool {
    &&& next.0 matches SyncState::Reconcile { current_state }
    &&& current_state.entries() == baseline
    &&& next.1 is ReadTree
}

/// The tree has been reconciled with the baseline: the two batches go out,
/// the new snapshot is kept for later, and the counts are those of the
/// batches.
pub open spec fn dispatches(
    next: (SyncState, SyncAction),
    baseline: Snapshot,
    files: Seq<LocalFile>,
    options: SyncOptions,
) -> bool {
    &&& next.0 matches SyncState::DispatchRemote { new_state, stats }
    &&& next.1 matches SyncAction::Dispatch { to_be_uploaded, to_be_deleted }
    &&& new_state.entries() == new_entries(
        files_view(files),
        accepted_types(options),
        option_view(options.state_path_relative_to_path),
    )
    &&& uploads_view(to_be_uploaded@) == upload_batch(
        baseline@,
        files_view(files),
        accepted_types(options),
        option_view(options.state_path_relative_to_path),
    )
    &&& strings_view(to_be_deleted@) == delete_batch(
        baseline.entries(),
        new_state@,
        option_view(options.state_path_relative_to_path),
    )
    &&& stats.uploaded == to_be_uploaded@.len()
    &&& stats.deleted == to_be_deleted@.len()
}

/// The start of a run, and the first thing to do.
pub fn start() -> (first: (SyncState, SyncAction))
    ensures
        first.0 is ResolveBaseline,
        first.1 is ReadState,
{
    (SyncState::ResolveBaseline, SyncAction::ReadState)
}

/// One step of a run: from `state`, on `event`, to `next`.
///
/// The baseline is the persisted snapshot where there is one, and the remote
/// listing where there is none; a state file that is there and cannot be
/// read ends the run. The batches go out only once the tree
/// has been reconciled; the new snapshot is written only once both batches
/// were taken; the run is done only once the snapshot is written. Whatever
/// fails ends the run with that failure, an upload's before a deletion's.
/// An event that the state does not wait for (see [`awaits`]) changes
/// nothing.
pub open spec fn steps_to(
    state: SyncState,
    event: SyncEvent,
    options: SyncOptions,
    next: (SyncState, SyncAction),
) -> bool {
    match (state, event) {
        (SyncState::ResolveBaseline, SyncEvent::StateRead(Ok(Some(contents)))) => reconciles_from(
            next,
            collected(line_records(lines(contents@))),
        ),
        (SyncState::ResolveBaseline, SyncEvent::StateRead(Ok(None))) => next.0 is FetchBaseline
            && next.1 is FetchListing,
        (SyncState::ResolveBaseline, SyncEvent::StateRead(Err(error))) => fails_with(
            next,
            SyncError::IOError(error),
        ),
        (SyncState::FetchBaseline, SyncEvent::Listed(Ok(response))) => reconciles_from(
            next,
            collected(listed_records(response@)),
        ),
        (SyncState::FetchBaseline, SyncEvent::Listed(Err(error))) => fails_with(
            next,
            list_failure(error),
        ),
        (SyncState::Reconcile { current_state }, SyncEvent::TreeRead(Ok(files))) => dispatches(
            next,
            current_state,
            files@,
            options,
        ),
        (SyncState::Reconcile { .. }, SyncEvent::TreeRead(Err(error))) => fails_with(
            next,
            SyncError::IOError(error),
        ),
        (SyncState::DispatchRemote { new_state, stats }, SyncEvent::Dispatched(Ok(_), Ok(_))) => {
            &&& next.0 == SyncState::PersistSnapshot { stats }
            &&& next.1 matches SyncAction::Persist { contents }
            &&& contents@ == rendered(new_state.entries())
        },
        (SyncState::DispatchRemote { .. }, SyncEvent::Dispatched(Err(error), _)) => fails_with(
            next,
            upload_failure(error),
        ),
        (SyncState::DispatchRemote { .. }, SyncEvent::Dispatched(Ok(_), Err(error))) => fails_with(
            next,
            delete_failure(error),
        ),
        (SyncState::PersistSnapshot { stats }, SyncEvent::Persisted(Ok(_))) => next.0
            == SyncState::Done(stats) && next.1 is Stop,
        (SyncState::PersistSnapshot { .. }, SyncEvent::Persisted(Err(error))) => fails_with(
            next,
            SyncError::IOError(error),
        ),
        _ => next.0 == state && next.1 is Stop,
    }
}

/// Takes a run one step further: from where it stands and what happened to
/// where it stands next and what is to be done. See [`steps_to`].
pub fn sync(state: SyncState, event: SyncEvent, options: &SyncOptions) -> (next: (
    SyncState,
    SyncAction,
))
    ensures
        steps_to(state, event, *options, next),
{
    match (state, event) {
        (SyncState::ResolveBaseline, SyncEvent::StateRead(Ok(Some(contents)))) => {
            let current_state = read_state_file(contents.as_str());
            (SyncState::Reconcile { current_state }, SyncAction::ReadTree)
        },
        (SyncState::ResolveBaseline, SyncEvent::StateRead(Ok(None))) => (
            SyncState::FetchBaseline,
            SyncAction::FetchListing,
        ),
        (SyncState::ResolveBaseline, SyncEvent::StateRead(Err(error))) => (
            SyncState::Failed(SyncError::from(error)),
            SyncAction::Stop,
        ),
        (SyncState::FetchBaseline, SyncEvent::Listed(Ok(response))) => {
            let current_state = fetch_state(response);
            (SyncState::Reconcile { current_state }, SyncAction::ReadTree)
        },
        (SyncState::FetchBaseline, SyncEvent::Listed(Err(error))) => (
            SyncState::Failed(SyncError::from(error)),
            SyncAction::Stop,
        ),
        (SyncState::Reconcile { current_state }, SyncEvent::TreeRead(Ok(files))) => {
            let allowed = if options.ignore_disallowed_file_types {
                Some(ALLOWED_FILE_TYPES.as_slice())
            } else {
                None
            };
            let Reconciliation { new_state, to_be_uploaded, to_be_deleted } = reconcile(
                &current_state,
                files,
                allowed,
                &options.state_path_relative_to_path,
            );
            let stats = SyncStats {
                uploaded: to_be_uploaded.len(),
                deleted: to_be_deleted.len(),
            };
            (
                SyncState::DispatchRemote { new_state, stats },
                SyncAction::Dispatch { to_be_uploaded, to_be_deleted },
            )
        },
        (SyncState::Reconcile { .. }, SyncEvent::TreeRead(Err(error))) => (
            SyncState::Failed(SyncError::from(error)),
            SyncAction::Stop,
        ),
        (SyncState::DispatchRemote { new_state, stats }, SyncEvent::Dispatched(upload, delete)) => {
            match upload {
                Err(error) => (SyncState::Failed(SyncError::from(error)), SyncAction::Stop),
                Ok(_) => match delete {
                    Err(error) => (SyncState::Failed(SyncError::from(error)), SyncAction::Stop),
                    Ok(_) => {
                        let contents = write_state_file(&new_state);
                        (SyncState::PersistSnapshot { stats }, SyncAction::Persist { contents })
                    },
                },
            }
        },
        (SyncState::PersistSnapshot { stats }, SyncEvent::Persisted(Ok(_))) => (
            SyncState::Done(stats),
            SyncAction::Stop,
        ),
        (SyncState::PersistSnapshot { .. }, SyncEvent::Persisted(Err(error))) => (
            SyncState::Failed(SyncError::from(error)),
            SyncAction::Stop,
        ),
        (other, _) => (other, SyncAction::Stop),
    }
}

} // verus!
