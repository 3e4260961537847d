//! Reconciliation of a local directory tree against a snapshot of what a
//! remote file host is believed to hold: which files to upload, which paths
//! to delete, and the snapshot to keep for the next run.
//!
//! The crate computes; it performs no input or output of its own. A caller
//! reads files and talks to the remote host, and hands plain values in.
//!
//! - [`snapshot`]: the mapping from path to digest.
//! - [`digest`]: the digest of a file's content.
//! - [`path`]: relative paths and their extensions.
//! - [`state`]: the snapshot as the text of its file, and as a remote listing.
//! - [`reconcile`]: the new snapshot and the two batches.
//! - [`neocities`]: the requests to the remote host and the meaning of its
//!   answers.
//! - [`sync`]: the steps of a run, and its failures.
//! - [`data`]: the default user name.
//! - [`laws`]: what holds in general, proved.

pub mod data;
pub mod digest;
pub mod laws;
pub mod neocities;
pub mod path;
pub mod reconcile;
pub mod snapshot;
pub mod state;
pub mod sync;
pub mod text;
