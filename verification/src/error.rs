//! The failures an operation can end in, and how it ends when it succeeds.

use vstd::prelude::*;
use vstd::string::*;

verus! {

/// Why an operation was abandoned.
#[derive(Clone, Copy, Debug, PartialEq, Eq, Structural)]
pub enum OogitError {
    /// The sidecar directory exists and overwriting it was not allowed.
    AlreadyBound,
    /// No binding record could be recovered for the document.
    UnboundDocument,
    /// The remote could not be cloned.
    CloneFailure,
    /// The revision names no commit, tag or branch.
    RevisionNotFound,
    /// The archive is malformed, or an entry of it would leave the mount point.
    ArchiveCorrupt,
    /// The archive to write exists and overwriting it was not allowed.
    DestinationExists,
    /// The file system, or the engine working on it, failed.
    IoFailure,
    /// The working tree has no remote to push to.
    NoRemoteConfigured,
    /// The remote refused the push.
    PushRejected,
}

/// How a successful operation ended.
#[derive(Clone, Copy, Debug, PartialEq, Eq, Structural)]
pub enum Outcome {
    /// A new commit was created.
    Committed,
    /// Nothing had changed, so no commit was created.
    EmptyChangeSet,
    /// The archive was written from the working tree.
    Restored,
}

/// The text shown for each failure.
pub open spec fn message_of(error: OogitError) -> Seq<char> {
    match error {
        OogitError::AlreadyBound => "sidecar already exists. Use --force to overwrite."@,
        OogitError::UnboundDocument => "document is not bound to a repository"@,
        OogitError::CloneFailure => "could not clone the repository"@,
        OogitError::RevisionNotFound => "revision not found"@,
        OogitError::ArchiveCorrupt => "archive is corrupt"@,
        OogitError::DestinationExists => "destination already exists. Use --force to overwrite."@,
        OogitError::IoFailure => "input/output failure"@,
        OogitError::NoRemoteConfigured => "No remote found"@,
        OogitError::PushRejected => "push rejected by the remote"@,
    }
}

/// The text shown when the sidecar directory is in the way.
pub open spec fn already_bound_text(sidecar_dir: Seq<char>) -> Seq<char> {
    sidecar_dir + " already exists. Use --force to overwrite."@
}

impl OogitError {
    /// A human-readable message for this failure.
    pub fn message(&self) -> (out: String)
        ensures
            out@ == message_of(*self),
    {
        match self {
            OogitError::AlreadyBound => String::from_str(
                "sidecar already exists. Use --force to overwrite.",
            ),
            OogitError::UnboundDocument => String::from_str(
                "document is not bound to a repository",
            ),
            OogitError::CloneFailure => String::from_str("could not clone the repository"),
            OogitError::RevisionNotFound => String::from_str("revision not found"),
            OogitError::ArchiveCorrupt => String::from_str("archive is corrupt"),
            OogitError::DestinationExists => String::from_str(
                "destination already exists. Use --force to overwrite.",
            ),
            OogitError::IoFailure => String::from_str("input/output failure"),
            OogitError::NoRemoteConfigured => String::from_str("No remote found"),
            OogitError::PushRejected => String::from_str("push rejected by the remote"),
        }
    }
}

/// The message for `AlreadyBound` that names the directory in the way.
pub fn already_bound_message(sidecar_dir: &str) -> (out: String)
    ensures
        out@ == already_bound_text(sidecar_dir@),
{
    String::from_str(sidecar_dir).concat(" already exists. Use --force to overwrite.")
}

impl Outcome {
    /// Whether the operation left everything as it was.
    pub fn is_no_op(&self) -> (out: bool)
        ensures
            out == (*self == Outcome::EmptyChangeSet),
    {
        match self {
            Outcome::EmptyChangeSet => true,
            _ => false,
        }
    }
}

} // verus!
