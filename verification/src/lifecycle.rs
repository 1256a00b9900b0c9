//! The five lifecycle operations as one machine.
//!
//! A [`Session`] holds what an operation has learned so far. Each call of
//! [`Session::step`] takes the report of the step carried out last and names
//! the next one, until it names [`Action::Finish`] or [`Action::Abort`]. The
//! machine decides the order of the steps and what each failure means; the
//! caller carries the steps out.

use crate::binding::{text_of, unbound, BindingRecord, BindingView};
use crate::error::{OogitError, Outcome};
use crate::paths::{
    binding_file, binding_file_of, branch_ref, branch_ref_of, lock_file, lock_file_of,
};
use crate::sidecar::{may_claim, prepare, resolve, resolved};
use vstd::prelude::*;
use vstd::string::*;

verus! {

/// The operation a session carries out.
#[derive(Clone, Copy, Debug, PartialEq, Eq, Structural)]
pub enum Operation {
    /// Bind a document to a remote history and publish its content.
    Initialize,
    /// Fetch a remote history and write the document from it.
    Checkout,
    /// Record the document's content in the local history.
    Commit,
    /// Bring the local and the remote history together.
    Update,
    /// Write the document from a revision of the history.
    Reset,
}

/// Where a session stands: the step it waits for, or how it ended.
#[derive(Clone, Copy, Debug, PartialEq, Eq, Structural)]
pub enum Phase {
    /// Nothing has been asked for yet.
    Idle,
    /// The sidecar directory is being looked at.
    Probing,
    /// The sidecar directory is being locked against other invocations.
    Locking,
    /// The stored binding is being read.
    Loading,
    /// The working tree directory is being emptied and created.
    Preparing,
    /// The remote is being cloned at the branch asked for.
    Cloning,
    /// The remote is being cloned at its default branch.
    CloningDefault,
    /// The branch asked for is being created at the cloned tip.
    Adopting,
    /// The binding is being stored.
    Recording,
    /// The remote history is being fetched.
    Fetching,
    /// The working tree is being moved to a revision.
    Syncing,
    /// The archive is being unpacked into the working tree.
    Expanding,
    /// The working tree is being packed into the archive.
    Collapsing,
    /// The working tree is being staged and committed.
    Committing,
    /// The branch is being pushed.
    Pushing,
    /// The operation is over and did what it was asked.
    Succeeded(Outcome),
    /// The operation is over and was abandoned.
    Failed(OogitError),
}

/// What went wrong in a step, as far as the caller can tell.
#[derive(Clone, Copy, Debug, PartialEq, Eq, Structural)]
pub enum Fault {
    /// The file system refused.
    Io,
    /// The archive could not be read as one.
    Corrupt,
    /// What was to be written exists and may not be replaced.
    Exists,
    /// What was asked for does not exist.
    NotFound,
    /// The working tree has no remote.
    NoRemote,
    /// The remote refused.
    Rejected,
    /// Anything else.
    Other,
}

/// The report of a step.
#[derive(Clone, Debug, PartialEq, Eq)]
pub enum Event {
    /// The operation is to start.
    Begin,
    /// What was found where the sidecar directory belongs.
    Probed { sidecar_exists: bool, tree_exists: bool },
    /// The stored binding as text, where there is one.
    Loaded { text: Option<String> },
    /// The step was carried out.
    Done,
    /// The working tree was staged, and a commit created or not.
    Staged { committed: bool },
    /// The remote history was fetched; `behind` is the number of commits
    /// that the remote branch holds and the local branch lacks.
    Fetched { behind: usize },
    /// The step failed.
    Failed { fault: Fault },
}

/// A report as a mathematical value.
pub enum EventView {
    Begin,
    Probed { sidecar_exists: bool, tree_exists: bool },
    Loaded { text: Option<Seq<char>> },
    Done,
    Staged { committed: bool },
    Fetched { behind: nat },
    Failed { fault: Fault },
}

impl View for Event {
    type V = EventView;

    open spec fn view(&self) -> EventView {
        match *self {
            Event::Begin => EventView::Begin,
            Event::Probed { sidecar_exists, tree_exists } => EventView::Probed {
                sidecar_exists,
                tree_exists,
            },
            Event::Loaded { text } => EventView::Loaded { text: text_of(text) },
            Event::Done => EventView::Done,
            Event::Staged { committed } => EventView::Staged { committed },
            Event::Fetched { behind } => EventView::Fetched { behind: behind as nat },
            Event::Failed { fault } => EventView::Failed { fault },
        }
    }
}

/// The next step to carry out.
#[derive(Clone, Debug, PartialEq, Eq)]
pub enum Action {
    /// Look whether the sidecar directory and the working tree in it exist.
    Probe { sidecar_dir: String, working_tree: String },
    /// Create the sidecar directory where there is none, and the lock file
    /// in it. Where the file exists the step fails, unless `take_over` is
    /// set: then a lock that an abandoned run left behind is taken over.
    /// The lock is held until the operation ends.
    Lock { sidecar_dir: String, lock_file: String, take_over: bool },
    /// Read the stored binding.
    Load { binding_file: String },
    /// Remove the working tree directory if asked, then create it anew.
    ResetTree { working_tree: String, remove_first: bool },
    /// Clone the remote, at the branch given or at its default branch.
    Clone { repo_url: String, branch: Option<String>, into: String },
    /// Create the local branch at the current tip and switch to it.
    AdoptBranch { working_tree: String, reference: String },
    /// Store the binding.
    Record { binding_file: String, text: String },
    /// Fetch the remote history.
    Fetch { working_tree: String },
    /// Bring the files of the working tree to the revision, or to the tip of
    /// the bound branch on the remote where none is given; and move the
    /// local branch there too where `move_branch` is set.
    CheckoutRevision {
        working_tree: String,
        revision: Option<String>,
        branch: Option<String>,
        move_branch: bool,
    },
    /// Unpack the archive into the mount point, after emptying it if asked.
    Expand { archive: String, working_tree: String, mount: String, replace: bool },
    /// Pack the mount point into the archive.
    Collapse { working_tree: String, mount: String, archive: String, overwrite: bool },
    /// Stage the whole working tree and commit what changed.
    StageAndCommit { working_tree: String, message: String },
    /// Push the current branch to the first remote.
    Push { working_tree: String },
    /// Stop: the operation succeeded.
    Finish { outcome: Outcome },
    /// Stop: the operation failed.
    Abort { error: OogitError },
}

/// A step as a mathematical value.
pub enum ActionView {
    Probe { sidecar_dir: Seq<char>, working_tree: Seq<char> },
    Lock { sidecar_dir: Seq<char>, lock_file: Seq<char>, take_over: bool },
    Load { binding_file: Seq<char> },
    ResetTree { working_tree: Seq<char>, remove_first: bool },
    Clone { repo_url: Seq<char>, branch: Option<Seq<char>>, into: Seq<char> },
    AdoptBranch { working_tree: Seq<char>, reference: Seq<char> },
    Record { binding_file: Seq<char>, text: Seq<char> },
    Fetch { working_tree: Seq<char> },
    CheckoutRevision {
        working_tree: Seq<char>,
        revision: Option<Seq<char>>,
        branch: Option<Seq<char>>,
        move_branch: bool,
    },
    Expand { archive: Seq<char>, working_tree: Seq<char>, mount: Seq<char>, replace: bool },
    Collapse { working_tree: Seq<char>, mount: Seq<char>, archive: Seq<char>, overwrite: bool },
    StageAndCommit { working_tree: Seq<char>, message: Seq<char> },
    Push { working_tree: Seq<char> },
    Finish { outcome: Outcome },
    Abort { error: OogitError },
}

impl View for Action {
    type V = ActionView;

    open spec fn view(&self) -> ActionView {
        match *self {
            Action::Probe { sidecar_dir, working_tree } => ActionView::Probe {
                sidecar_dir: sidecar_dir@,
                working_tree: working_tree@,
            },
            Action::Lock { sidecar_dir, lock_file, take_over } => ActionView::Lock {
                sidecar_dir: sidecar_dir@,
                lock_file: lock_file@,
                take_over,
            },
            Action::Load { binding_file } => ActionView::Load { binding_file: binding_file@ },
            Action::ResetTree { working_tree, remove_first } => ActionView::ResetTree {
                working_tree: working_tree@,
                remove_first,
            },
            Action::Clone { repo_url, branch, into } => ActionView::Clone {
                repo_url: repo_url@,
                branch: text_of(branch),
                into: into@,
            },
            Action::AdoptBranch { working_tree, reference } => ActionView::AdoptBranch {
                working_tree: working_tree@,
                reference: reference@,
            },
            Action::Record { binding_file, text } => ActionView::Record {
                binding_file: binding_file@,
                text: text@,
            },
            Action::Fetch { working_tree } => ActionView::Fetch { working_tree: working_tree@ },
            Action::CheckoutRevision {
                working_tree,
                revision,
                branch,
                move_branch,
            } => ActionView::CheckoutRevision {
                working_tree: working_tree@,
                revision: text_of(revision),
                branch: text_of(branch),
                move_branch,
            },
            Action::Expand { archive, working_tree, mount, replace } => ActionView::Expand {
                archive: archive@,
                working_tree: working_tree@,
                mount: mount@,
                replace,
            },
            Action::Collapse { working_tree, mount, archive, overwrite } => ActionView::Collapse {
                working_tree: working_tree@,
                mount: mount@,
                archive: archive@,
                overwrite,
            },
            Action::StageAndCommit { working_tree, message } => ActionView::StageAndCommit {
                working_tree: working_tree@,
                message: message@,
            },
            Action::Push { working_tree } => ActionView::Push { working_tree: working_tree@ },
            Action::Finish { outcome } => ActionView::Finish { outcome },
            Action::Abort { error } => ActionView::Abort { error },
        }
    }
}

impl ActionView {
    /// Whether carrying the step out can change anything on disk or at the
    /// remote.
    pub open spec fn mutates(self) -> bool {
        match self {
            ActionView::Probe { .. } => false,
            ActionView::Load { .. } => false,
            ActionView::Finish { .. } => false,
            ActionView::Abort { .. } => false,
            _ => true,
        }
    }

    /// Whether the step can add a commit to the history.
    pub open spec fn commits(self) -> bool {
        self is StageAndCommit
    }

    /// Whether the step ends the operation.
    pub open spec fn is_final(self) -> bool {
        self is Finish || self is Abort
    }
}

/// One run of an operation on one document.
#[derive(Clone, Debug, PartialEq, Eq)]
pub struct Session {
    /// What is being done.
    pub operation: Operation,
    /// How far it has come.
    pub phase: Phase,
    /// The binding worked on; complete once it has been given or loaded.
    pub binding: BindingRecord,
    /// The commit message asked for, if any.
    pub message: Option<String>,
    /// The revision asked for, if any.
    pub revision: Option<String>,
    /// Whether a working tree was found that has to be removed.
    pub stale_tree: bool,
    /// Whether a commit was created.
    pub committed: bool,
}

/// A session as a mathematical value.
pub struct SessionView {
    pub operation: Operation,
    pub phase: Phase,
    pub binding: BindingView,
    pub message: Option<Seq<char>>,
    pub revision: Option<Seq<char>>,
    pub stale_tree: bool,
    pub committed: bool,
}

impl View for Session {
    type V = SessionView;

    open spec fn view(&self) -> SessionView {
        SessionView {
            operation: self.operation,
            phase: self.phase,
            binding: self.binding@,
            message: text_of(self.message),
            revision: text_of(self.revision),
            stale_tree: self.stale_tree,
            committed: self.committed,
        }
    }
}

/// The commit message used where none is asked for.
pub open spec fn default_message_of(operation: Operation) -> Seq<char> {
    match operation {
        Operation::Update => "oogit update"@,
        Operation::Commit => "oogit commit"@,
        _ => "oogit initial commit"@,
    }
}

/// What a fault means in each phase.
pub open spec fn failure_of(phase: Phase, fault: Fault) -> OogitError {
    match phase {
        Phase::Loading => OogitError::UnboundDocument,
        Phase::Cloning | Phase::CloningDefault | Phase::Adopting => OogitError::CloneFailure,
        Phase::Fetching => if fault == Fault::NoRemote {
            OogitError::NoRemoteConfigured
        } else {
            OogitError::CloneFailure
        },
        Phase::Syncing => if fault == Fault::NotFound {
            OogitError::RevisionNotFound
        } else {
            OogitError::IoFailure
        },
        Phase::Expanding => if fault == Fault::Corrupt {
            OogitError::ArchiveCorrupt
        } else {
            OogitError::IoFailure
        },
        Phase::Collapsing => if fault == Fault::Exists {
            OogitError::DestinationExists
        } else {
            OogitError::IoFailure
        },
        Phase::Pushing => if fault == Fault::NoRemote {
            OogitError::NoRemoteConfigured
        } else if fault == Fault::Io {
            OogitError::IoFailure
        } else {
            OogitError::PushRejected
        },
        _ => OogitError::IoFailure,
    }
}

/// The fault that a report stands for: its own, or an unknown one where the
/// report is not one that the phase waits for.
pub open spec fn fault_in(event: EventView) -> Fault {
    match event {
        EventView::Failed { fault } => fault,
        _ => Fault::Other,
    }
}

impl SessionView {
    /// The session in another phase, with the step that leads there.
    pub open spec fn go(self, phase: Phase, action: ActionView) -> (SessionView, ActionView) {
        (SessionView { phase, ..self }, action)
    }

    /// The session abandoned.
    pub open spec fn abort(self, error: OogitError) -> (SessionView, ActionView) {
        self.go(Phase::Failed(error), ActionView::Abort { error })
    }

    /// The session completed.
    pub open spec fn finish(self, outcome: Outcome) -> (SessionView, ActionView) {
        self.go(Phase::Succeeded(outcome), ActionView::Finish { outcome })
    }

    /// The session abandoned over a report that is a failure, or that the
    /// phase does not wait for.
    pub open spec fn give_up(self, event: EventView) -> (SessionView, ActionView) {
        self.abort(failure_of(self.phase, fault_in(event)))
    }

    /// The commit message to use.
    pub open spec fn message_text(self) -> Seq<char> {
        match self.message {
            Some(m) => m,
            None => default_message_of(self.operation),
        }
    }

    /// What the outcome is once the history has been dealt with.
    pub open spec fn commit_outcome(self) -> Outcome {
        if self.committed {
            Outcome::Committed
        } else {
            Outcome::EmptyChangeSet
        }
    }

    /// The look at the sidecar directory and the working tree in it.
    pub open spec fn probe(self) -> ActionView {
        ActionView::Probe {
            sidecar_dir: self.binding.sidecar_dir(),
            working_tree: self.binding.working_tree(),
        }
    }

    /// The locking of the sidecar directory. With leave to overwrite, what
    /// an abandoned run left behind is reclaimed, its lock too.
    pub open spec fn lock(self) -> ActionView {
        ActionView::Lock {
            sidecar_dir: self.binding.sidecar_dir(),
            lock_file: lock_file_of(self.binding.document_path),
            take_over: self.binding.force,
        }
    }

    /// The reading of the stored binding.
    pub open spec fn load(self) -> ActionView {
        ActionView::Load { binding_file: binding_file_of(self.binding.document_path) }
    }

    /// The making of an empty working tree.
    pub open spec fn reset_tree(self, remove_first: bool) -> ActionView {
        ActionView::ResetTree { working_tree: self.binding.working_tree(), remove_first }
    }

    /// The clone of the remote into the working tree, at `branch` or at the
    /// remote's default branch.
    pub open spec fn clone_at(self, branch: Option<Seq<char>>) -> ActionView {
        ActionView::Clone {
            repo_url: self.binding.repo_url,
            branch,
            into: self.binding.working_tree(),
        }
    }

    /// The creation of the local branch `branch` at the cloned tip.
    pub open spec fn adopt(self, branch: Seq<char>) -> ActionView {
        ActionView::AdoptBranch {
            working_tree: self.binding.working_tree(),
            reference: branch_ref_of(branch),
        }
    }

    /// The storing of the binding.
    pub open spec fn record(self) -> ActionView {
        ActionView::Record {
            binding_file: binding_file_of(self.binding.document_path),
            text: self.binding.encoded(),
        }
    }

    /// The fetch of the remote history.
    pub open spec fn fetch(self) -> ActionView {
        ActionView::Fetch { working_tree: self.binding.working_tree() }
    }

    /// The move to a revision. Only an update takes the local branch along:
    /// a reset changes the files and leaves the history as it is.
    pub open spec fn checkout_revision(self, revision: Option<Seq<char>>) -> ActionView {
        ActionView::CheckoutRevision {
            working_tree: self.binding.working_tree(),
            revision,
            branch: self.binding.branch,
            move_branch: self.operation == Operation::Update,
        }
    }

    /// The unpacking of the document below the mount point.
    pub open spec fn expand(self, replace: bool) -> ActionView {
        ActionView::Expand {
            archive: self.binding.document_path,
            working_tree: self.binding.working_tree(),
            mount: self.binding.mount(),
            replace,
        }
    }

    /// The packing of the mount point into the document.
    pub open spec fn collapse(self, overwrite: bool) -> ActionView {
        ActionView::Collapse {
            working_tree: self.binding.working_tree(),
            mount: self.binding.mount(),
            archive: self.binding.document_path,
            overwrite,
        }
    }

    /// The staging of the working tree, and the commit of what changed.
    pub open spec fn stage_and_commit(self) -> ActionView {
        ActionView::StageAndCommit {
            working_tree: self.binding.working_tree(),
            message: self.message_text(),
        }
    }

    /// The push of the current branch.
    pub open spec fn push(self) -> ActionView {
        ActionView::Push { working_tree: self.binding.working_tree() }
    }

    /// The first step of each operation: one that binds a document looks at
    /// the sidecar directory, the others lock it.
    pub open spec fn begin(self) -> (SessionView, ActionView) {
        match self.operation {
            Operation::Initialize | Operation::Checkout => self.go(Phase::Probing, self.probe()),
            _ => self.go(Phase::Locking, self.lock()),
        }
    }

    /// Whether the session may take the sidecar directory for itself. An
    /// initialize may by the sidecar's own rule. A checkout always may: its
    /// leave to overwrite governs the document, not the sidecar.
    pub open spec fn claims(self, sidecar_exists: bool) -> bool {
        self.operation != Operation::Initialize || may_claim(self.binding.force, sidecar_exists)
    }

    /// After the look at the sidecar directory: an initialize that may not
    /// claim it stops with `AlreadyBound`, before anything is changed.
    /// Otherwise the sidecar directory is locked, and the session remembers
    /// whether a working tree is in the way.
    pub open spec fn after_probe(self, sidecar_exists: bool, tree_exists: bool) -> (
        SessionView,
        ActionView,
    ) {
        if !self.claims(sidecar_exists) {
            self.abort(OogitError::AlreadyBound)
        } else {
            (SessionView { stale_tree: tree_exists, ..self }).go(Phase::Locking, self.lock())
        }
    }

    /// Once the lock is held: an operation that binds a document makes the
    /// working tree anew, removing first the one that was found; the others
    /// read the stored binding.
    pub open spec fn after_lock(self) -> (SessionView, ActionView) {
        match self.operation {
            Operation::Initialize | Operation::Checkout => self.go(
                Phase::Preparing,
                self.reset_tree(self.stale_tree),
            ),
            _ => self.go(Phase::Loading, self.load()),
        }
    }

    /// After the stored binding was read: what it resolves to becomes the
    /// session's binding, with the session's own leave to overwrite.
    pub open spec fn after_load(self, text: Option<Seq<char>>) -> (SessionView, ActionView) {
        match resolved(self.binding.document_path, text) {
            Ok(found) => {
                let bound = SessionView {
                    binding: BindingView { force: self.binding.force, ..found },
                    ..self
                };
                match self.operation {
                    Operation::Update => bound.go(Phase::Fetching, bound.fetch()),
                    Operation::Reset => bound.go(
                        Phase::Syncing,
                        bound.checkout_revision(self.revision),
                    ),
                    _ => bound.go(Phase::Expanding, bound.expand(true)),
                }
            },
            Err(error) => self.abort(error),
        }
    }

    /// After a clone failed: where a branch was asked for and it is the
    /// branch that was not found, the default branch is cloned instead.
    pub open spec fn after_clone_failure(self, fault: Fault) -> (SessionView, ActionView) {
        if self.binding.branch is Some && fault == Fault::NotFound {
            self.go(Phase::CloningDefault, self.clone_at(None))
        } else {
            self.abort(OogitError::CloneFailure)
        }
    }

    /// After the default branch was cloned in place of a missing one.
    pub open spec fn after_default_clone(self) -> (SessionView, ActionView) {
        match self.binding.branch {
            Some(b) => self.go(Phase::Adopting, self.adopt(b)),
            None => self.abort(OogitError::CloneFailure),
        }
    }

    /// Once the working tree holds the history: the binding is stored.
    pub open spec fn after_clone(self) -> (SessionView, ActionView) {
        self.go(Phase::Recording, self.record())
    }

    /// After the binding was stored.
    pub open spec fn after_record(self) -> (SessionView, ActionView) {
        if self.operation == Operation::Checkout {
            self.go(Phase::Collapsing, self.collapse(self.binding.force))
        } else {
            self.go(Phase::Expanding, self.expand(false))
        }
    }

    /// After the fetch: a remote that has moved on, holding commits that the
    /// local branch lacks, is a conflict, and the working tree goes to its
    /// tip first; otherwise the archive goes in.
    pub open spec fn after_fetch(self, behind: nat) -> (SessionView, ActionView) {
        if behind > 0 {
            self.go(Phase::Syncing, self.checkout_revision(None))
        } else {
            self.go(Phase::Expanding, self.expand(true))
        }
    }

    /// After the working tree was moved to a revision. In an update this was
    /// a conflict: with leave to overwrite the remote history wins and the
    /// archive is written from it; without, the archive goes in on top.
    pub open spec fn after_sync(self) -> (SessionView, ActionView) {
        if self.operation == Operation::Update && !self.binding.force {
            self.go(Phase::Expanding, self.expand(true))
        } else {
            self.go(Phase::Collapsing, self.collapse(true))
        }
    }

    /// After the archive was written.
    pub open spec fn after_collapse(self) -> (SessionView, ActionView) {
        if self.operation == Operation::Update {
            self.go(Phase::Committing, self.stage_and_commit())
        } else {
            self.finish(Outcome::Restored)
        }
    }

    /// After staging: a commit ends here; the others push.
    pub open spec fn after_stage(self, committed: bool) -> (SessionView, ActionView) {
        let staged = SessionView { committed, ..self };
        if self.operation == Operation::Commit {
            staged.finish(staged.commit_outcome())
        } else {
            staged.go(Phase::Pushing, staged.push())
        }
    }

    /// The session after a report, and the step to carry out next.
    pub open spec fn step(self, event: EventView) -> (SessionView, ActionView) {
        match (self.phase, event) {
            (Phase::Succeeded(outcome), _) => (self, ActionView::Finish { outcome }),
            (Phase::Failed(error), _) => (self, ActionView::Abort { error }),
            (Phase::Idle, EventView::Begin) => self.begin(),
            (Phase::Probing, EventView::Probed { sidecar_exists, tree_exists }) => self.after_probe(
                sidecar_exists,
                tree_exists,
            ),
            (Phase::Locking, EventView::Done) => self.after_lock(),
            (Phase::Loading, EventView::Loaded { text }) => self.after_load(text),
            (Phase::Preparing, EventView::Done) => self.go(
                Phase::Cloning,
                self.clone_at(self.binding.branch),
            ),
            (Phase::Cloning, EventView::Done) => self.after_clone(),
            (Phase::Cloning, EventView::Failed { fault }) => self.after_clone_failure(fault),
            (Phase::CloningDefault, EventView::Done) => self.after_default_clone(),
            (Phase::Adopting, EventView::Done) => self.after_clone(),
            (Phase::Recording, EventView::Done) => self.after_record(),
            (Phase::Fetching, EventView::Fetched { behind }) => self.after_fetch(behind),
            (Phase::Syncing, EventView::Done) => self.after_sync(),
            (Phase::Expanding, EventView::Done) => self.go(
                Phase::Committing,
                self.stage_and_commit(),
            ),
            (Phase::Collapsing, EventView::Done) => self.after_collapse(),
            (Phase::Committing, EventView::Staged { committed }) => self.after_stage(committed),
            (Phase::Pushing, EventView::Done) => self.finish(self.commit_outcome()),
            _ => self.give_up(event),
        }
    }
}

/// What a fault means in `phase`.
pub fn failure(phase: Phase, fault: Fault) -> (out: OogitError)
    ensures
        out == failure_of(phase, fault),
{
    match phase {
        Phase::Loading => OogitError::UnboundDocument,
        Phase::Cloning | Phase::CloningDefault | Phase::Adopting => OogitError::CloneFailure,
        Phase::Fetching => match fault {
            Fault::NoRemote => OogitError::NoRemoteConfigured,
            _ => OogitError::CloneFailure,
        },
        Phase::Syncing => match fault {
            Fault::NotFound => OogitError::RevisionNotFound,
            _ => OogitError::IoFailure,
        },
        Phase::Expanding => match fault {
            Fault::Corrupt => OogitError::ArchiveCorrupt,
            _ => OogitError::IoFailure,
        },
        Phase::Collapsing => match fault {
            Fault::Exists => OogitError::DestinationExists,
            _ => OogitError::IoFailure,
        },
        Phase::Pushing => match fault {
            Fault::NoRemote => OogitError::NoRemoteConfigured,
            Fault::Io => OogitError::IoFailure,
            _ => OogitError::PushRejected,
        },
        _ => OogitError::IoFailure,
    }
}

/// The commit message used where none is asked for.
pub fn default_message(operation: Operation) -> (out: String)
    ensures
        out@ == default_message_of(operation),
{
    match operation {
        Operation::Update => String::from_str("oogit update"),
        Operation::Commit => String::from_str("oogit commit"),
        _ => String::from_str("oogit initial commit"),
    }
}

/// A copy of an optional string.
fn copy_of(text: &Option<String>) -> (out: Option<String>)
    ensures
        text_of(out) == text_of(*text),
{
    match text {
        Some(t) => Some(t.clone()),
        None => None,
    }
}

impl Session {
    /// A session that has not begun.
    fn idle(
        operation: Operation,
        binding: BindingRecord,
        message: Option<String>,
        revision: Option<String>,
    ) -> (out: Session)
        ensures
            out@ == (SessionView {
                operation,
                phase: Phase::Idle,
                binding: binding@,
                message: text_of(message),
                revision: text_of(revision),
                stale_tree: false,
                committed: false,
            }),
    {
        Session {
            operation,
            phase: Phase::Idle,
            binding,
            message,
            revision,
            stale_tree: false,
            committed: false,
        }
    }

    /// A session that binds the document of `binding` and publishes it. The
    /// sub-path of the binding is brought to its stored form.
    pub fn initialize(binding: BindingRecord, message: Option<String>) -> (out: Session)
        ensures
            out@ == (SessionView {
                operation: Operation::Initialize,
                phase: Phase::Idle,
                binding: binding@.settled(),
                message: text_of(message),
                revision: None,
                stale_tree: false,
                committed: false,
            }),
            out@.binding.well_formed(),
    {
        Session::idle(Operation::Initialize, binding.settle(), message, None)
    }

    /// A session that writes the document of `binding` from the remote. The
    /// sub-path of the binding is brought to its stored form.
    pub fn checkout(binding: BindingRecord) -> (out: Session)
        ensures
            out@ == (SessionView {
                operation: Operation::Checkout,
                phase: Phase::Idle,
                binding: binding@.settled(),
                message: None,
                revision: None,
                stale_tree: false,
                committed: false,
            }),
            out@.binding.well_formed(),
    {
        Session::idle(Operation::Checkout, binding.settle(), None, None)
    }

    /// A session that commits the content of the bound `document`.
    pub fn commit(document: &str, message: Option<String>) -> (out: Session)
        ensures
            out@ == (SessionView {
                operation: Operation::Commit,
                phase: Phase::Idle,
                binding: unbound(document@, false),
                message: text_of(message),
                revision: None,
                stale_tree: false,
                committed: false,
            }),
    {
        Session::idle(
            Operation::Commit,
            BindingRecord::unbound(document, false),
            message,
            None,
        )
    }

    /// A session that brings the bound `document` and its remote together.
    pub fn update(document: &str, message: Option<String>, force: bool) -> (out: Session)
        ensures
            out@ == (SessionView {
                operation: Operation::Update,
                phase: Phase::Idle,
                binding: unbound(document@, force),
                message: text_of(message),
                revision: None,
                stale_tree: false,
                committed: false,
            }),
    {
        Session::idle(
            Operation::Update,
            BindingRecord::unbound(document, force),
            message,
            None,
        )
    }

    /// A session that writes the bound `document` from `revision`, or from
    /// the tip of the remote branch where none is given.
    pub fn reset(document: &str, revision: Option<String>) -> (out: Session)
        ensures
            out@ == (SessionView {
                operation: Operation::Reset,
                phase: Phase::Idle,
                binding: unbound(document@, false),
                message: None,
                revision: text_of(revision),
                stale_tree: false,
                committed: false,
            }),
    {
        Session::idle(
            Operation::Reset,
            BindingRecord::unbound(document, false),
            None,
            revision,
        )
    }

    /// How the operation ended, once it has.
    pub fn verdict(&self) -> (out: Option<Result<Outcome, OogitError>>)
        ensures
            out == match self@.phase {
                Phase::Succeeded(outcome) => Some(Ok::<Outcome, OogitError>(outcome)),
                Phase::Failed(error) => Some(Err::<Outcome, OogitError>(error)),
                _ => None,
            },
    {
        match self.phase {
            Phase::Succeeded(outcome) => Some(Ok(outcome)),
            Phase::Failed(error) => Some(Err(error)),
            _ => None,
        }
    }

    fn go(self, phase: Phase, action: Action) -> (out: (Session, Action))
        ensures
            out.0@ == self@.go(phase, action@).0,
            out.1@ == action@,
    {
        let mut next = self;
        next.phase = phase;
        (next, action)
    }

    fn abort(self, error: OogitError) -> (out: (Session, Action))
        ensures
            out.0@ == self@.abort(error).0,
            out.1@ == self@.abort(error).1,
    {
        self.go(Phase::Failed(error), Action::Abort { error })
    }

    fn finish(self, outcome: Outcome) -> (out: (Session, Action))
        ensures
            out.0@ == self@.finish(outcome).0,
            out.1@ == self@.finish(outcome).1,
    {
        self.go(Phase::Succeeded(outcome), Action::Finish { outcome })
    }

    fn give_up(self, event: Event) -> (out: (Session, Action))
        ensures
            out.0@ == self@.give_up(event@).0,
            out.1@ == self@.give_up(event@).1,
    {
        let fault = match event {
            Event::Failed { fault } => fault,
            _ => Fault::Other,
        };
        let error = failure(self.phase, fault);
        self.abort(error)
    }

    fn commit_outcome(&self) -> (out: Outcome)
        ensures
            out == self@.commit_outcome(),
    {
        if self.committed {
            Outcome::Committed
        } else {
            Outcome::EmptyChangeSet
        }
    }

    fn probe(&self) -> (out: Action)
        ensures
            out@ == self@.probe(),
    {
        Action::Probe {
            sidecar_dir: self.binding.sidecar_dir(),
            working_tree: self.binding.working_tree(),
        }
    }

    fn lock(&self) -> (out: Action)
        ensures
            out@ == self@.lock(),
    {
        Action::Lock {
            sidecar_dir: self.binding.sidecar_dir(),
            lock_file: lock_file(self.binding.document_path.as_str()),
            take_over: self.binding.force,
        }
    }

    fn load(&self) -> (out: Action)
        ensures
            out@ == self@.load(),
    {
        Action::Load { binding_file: binding_file(self.binding.document_path.as_str()) }
    }

    fn clone_at(&self, branch: Option<String>) -> (out: Action)
        ensures
            out@ == self@.clone_at(text_of(branch)),
    {
        Action::Clone {
            repo_url: self.binding.repo_url.clone(),
            branch,
            into: self.binding.working_tree(),
        }
    }

    fn adopt(&self, branch: &str) -> (out: Action)
        ensures
            out@ == self@.adopt(branch@),
    {
        Action::AdoptBranch {
            working_tree: self.binding.working_tree(),
            reference: branch_ref(branch),
        }
    }

    fn fetch(&self) -> (out: Action)
        ensures
            out@ == self@.fetch(),
    {
        Action::Fetch { working_tree: self.binding.working_tree() }
    }

    fn checkout_revision(&self, revision: Option<String>) -> (out: Action)
        ensures
            out@ == self@.checkout_revision(text_of(revision)),
    {
        let move_branch = match self.operation {
            Operation::Update => true,
            _ => false,
        };
        Action::CheckoutRevision {
            working_tree: self.binding.working_tree(),
            revision,
            branch: copy_of(&self.binding.branch),
            move_branch,
        }
    }

    fn expand(&self, replace: bool) -> (out: Action)
        ensures
            out@ == self@.expand(replace),
    {
        Action::Expand {
            archive: self.binding.document_path.clone(),
            working_tree: self.binding.working_tree(),
            mount: self.binding.mount(),
            replace,
        }
    }

    fn collapse(&self, overwrite: bool) -> (out: Action)
        ensures
            out@ == self@.collapse(overwrite),
    {
        Action::Collapse {
            working_tree: self.binding.working_tree(),
            mount: self.binding.mount(),
            archive: self.binding.document_path.clone(),
            overwrite,
        }
    }

    fn stage_and_commit(&self) -> (out: Action)
        ensures
            out@ == self@.stage_and_commit(),
    {
        let message = match &self.message {
            Some(m) => m.clone(),
            None => default_message(self.operation),
        };
        Action::StageAndCommit { working_tree: self.binding.working_tree(), message }
    }

    fn push(&self) -> (out: Action)
        ensures
            out@ == self@.push(),
    {
        Action::Push { working_tree: self.binding.working_tree() }
    }

    fn begin(self) -> (out: (Session, Action))
        ensures
            out.0@ == self@.begin().0,
            out.1@ == self@.begin().1,
    {
        match self.operation {
            Operation::Initialize | Operation::Checkout => {
                let action = self.probe();
                self.go(Phase::Probing, action)
            },
            _ => {
                let action = self.lock();
                self.go(Phase::Locking, action)
            },
        }
    }

    fn after_lock(self) -> (out: (Session, Action))
        ensures
            out.0@ == self@.after_lock().0,
            out.1@ == self@.after_lock().1,
    {
        match self.operation {
            Operation::Initialize | Operation::Checkout => {
                let action = Action::ResetTree {
                    working_tree: self.binding.working_tree(),
                    remove_first: self.stale_tree,
                };
                self.go(Phase::Preparing, action)
            },
            _ => {
                let action = self.load();
                self.go(Phase::Loading, action)
            },
        }
    }

    fn after_probe(self, sidecar_exists: bool, tree_exists: bool) -> (out: (Session, Action))
        ensures
            out.0@ == self@.after_probe(sidecar_exists, tree_exists).0,
            out.1@ == self@.after_probe(sidecar_exists, tree_exists).1,
    {
        let force = match self.operation {
            Operation::Initialize => self.binding.force,
            _ => true,
        };
        match prepare(self.binding.document_path.as_str(), force, sidecar_exists, tree_exists) {
            Err(error) => self.abort(error),
            Ok(plan) => {
                let action = self.lock();
                let mut claimed = self;
                claimed.stale_tree = plan.remove_first;
                claimed.go(Phase::Locking, action)
            },
        }
    }

    fn after_load(self, text: Option<String>) -> (out: (Session, Action))
        ensures
            out.0@ == self@.after_load(text_of(text)).0,
            out.1@ == self@.after_load(text_of(text)).1,
    {
        let stored = match &text {
            Some(t) => Some(t.as_str()),
            None => None,
        };
        match resolve(self.binding.document_path.as_str(), stored) {
            Ok(record) => {
                let mut bound = self;
                let force = bound.binding.force;
                bound.binding = record;
                bound.binding.force = force;
                match bound.operation {
                    Operation::Update => {
                        let action = bound.fetch();
                        bound.go(Phase::Fetching, action)
                    },
                    Operation::Reset => {
                        let action = bound.checkout_revision(copy_of(&bound.revision));
                        bound.go(Phase::Syncing, action)
                    },
                    _ => {
                        let action = bound.expand(true);
                        bound.go(Phase::Expanding, action)
                    },
                }
            },
            Err(error) => self.abort(error),
        }
    }

    fn after_clone_failure(self, fault: Fault) -> (out: (Session, Action))
        ensures
            out.0@ == self@.after_clone_failure(fault).0,
            out.1@ == self@.after_clone_failure(fault).1,
    {
        let missing = match fault {
            Fault::NotFound => true,
            _ => false,
        };
        if self.binding.branch.is_some() && missing {
            let action = self.clone_at(None);
            self.go(Phase::CloningDefault, action)
        } else {
            self.abort(OogitError::CloneFailure)
        }
    }

    fn after_default_clone(self) -> (out: (Session, Action))
        ensures
            out.0@ == self@.after_default_clone().0,
            out.1@ == self@.after_default_clone().1,
    {
        let action = match &self.binding.branch {
            Some(b) => Some(self.adopt(b.as_str())),
            None => None,
        };
        match action {
            Some(a) => self.go(Phase::Adopting, a),
            None => self.abort(OogitError::CloneFailure),
        }
    }

    fn after_clone(self) -> (out: (Session, Action))
        ensures
            out.0@ == self@.after_clone().0,
            out.1@ == self@.after_clone().1,
    {
        let action = Action::Record {
            binding_file: binding_file(self.binding.document_path.as_str()),
            text: self.binding.encode(),
        };
        self.go(Phase::Recording, action)
    }

    fn after_record(self) -> (out: (Session, Action))
        ensures
            out.0@ == self@.after_record().0,
            out.1@ == self@.after_record().1,
    {
        match self.operation {
            Operation::Checkout => {
                let action = self.collapse(self.binding.force);
                self.go(Phase::Collapsing, action)
            },
            _ => {
                let action = self.expand(false);
                self.go(Phase::Expanding, action)
            },
        }
    }

    fn after_fetch(self, behind: usize) -> (out: (Session, Action))
        ensures
            out.0@ == self@.after_fetch(behind as nat).0,
            out.1@ == self@.after_fetch(behind as nat).1,
    {
        if behind > 0 {
            let action = self.checkout_revision(None);
            self.go(Phase::Syncing, action)
        } else {
            let action = self.expand(true);
            self.go(Phase::Expanding, action)
        }
    }

    fn after_sync(self) -> (out: (Session, Action))
        ensures
            out.0@ == self@.after_sync().0,
            out.1@ == self@.after_sync().1,
    {
        let updating = match self.operation {
            Operation::Update => true,
            _ => false,
        };
        if updating && !self.binding.force {
            let action = self.expand(true);
            self.go(Phase::Expanding, action)
        } else {
            let action = self.collapse(true);
            self.go(Phase::Collapsing, action)
        }
    }

    fn after_collapse(self) -> (out: (Session, Action))
        ensures
            out.0@ == self@.after_collapse().0,
            out.1@ == self@.after_collapse().1,
    {
        match self.operation {
            Operation::Update => {
                let action = self.stage_and_commit();
                self.go(Phase::Committing, action)
            },
            _ => self.finish(Outcome::Restored),
        }
    }

    fn after_stage(self, committed: bool) -> (out: (Session, Action))
        ensures
            out.0@ == self@.after_stage(committed).0,
            out.1@ == self@.after_stage(committed).1,
    {
        let mut staged = self;
        staged.committed = committed;
        match staged.operation {
            Operation::Commit => {
                let outcome = staged.commit_outcome();
                staged.finish(outcome)
            },
            _ => {
                let action = staged.push();
                staged.go(Phase::Pushing, action)
            },
        }
    }

    /// Takes the report of the step carried out last (`Event::Begin` at the
    /// start) and gives the session after it with the step to carry out next.
    ///
    /// A report of failure, or one that the phase does not wait for, ends the
    /// operation with the error that the failure means in that phase; the one
    /// exception is a clone that did not find the branch asked for. Once the
    /// operation has ended, every report is answered with its end.
    pub fn step(self, event: Event) -> (out: (Session, Action))
        ensures
            out.0@ == self@.step(event@).0,
            out.1@ == self@.step(event@).1,
    {
        match self.phase {
            Phase::Succeeded(outcome) => (self, Action::Finish { outcome }),
            Phase::Failed(error) => (self, Action::Abort { error }),
            Phase::Idle => match event {
                Event::Begin => self.begin(),
                other => self.give_up(other),
            },
            Phase::Probing => match event {
                Event::Probed { sidecar_exists, tree_exists } => self.after_probe(
                    sidecar_exists,
                    tree_exists,
                ),
                other => self.give_up(other),
            },
            Phase::Locking => match event {
                Event::Done => self.after_lock(),
                other => self.give_up(other),
            },
            Phase::Loading => match event {
                Event::Loaded { text } => self.after_load(text),
                other => self.give_up(other),
            },
            Phase::Preparing => match event {
                Event::Done => {
                    let action = self.clone_at(copy_of(&self.binding.branch));
                    self.go(Phase::Cloning, action)
                },
                other => self.give_up(other),
            },
            Phase::Cloning => match event {
                Event::Done => self.after_clone(),
                Event::Failed { fault } => self.after_clone_failure(fault),
                other => self.give_up(other),
            },
            Phase::CloningDefault => match event {
                Event::Done => self.after_default_clone(),
                other => self.give_up(other),
            },
            Phase::Adopting => match event {
                Event::Done => self.after_clone(),
                other => self.give_up(other),
            },
            Phase::Recording => match event {
                Event::Done => self.after_record(),
                other => self.give_up(other),
            },
            Phase::Fetching => match event {
                Event::Fetched { behind } => self.after_fetch(behind),
                other => self.give_up(other),
            },
            Phase::Syncing => match event {
                Event::Done => self.after_sync(),
                other => self.give_up(other),
            },
            Phase::Expanding => match event {
                Event::Done => {
                    let action = self.stage_and_commit();
                    self.go(Phase::Committing, action)
                },
                other => self.give_up(other),
            },
            Phase::Collapsing => match event {
                Event::Done => self.after_collapse(),
                other => self.give_up(other),
            },
            Phase::Committing => match event {
                Event::Staged { committed } => self.after_stage(committed),
                other => self.give_up(other),
            },
            Phase::Pushing => match event {
                Event::Done => {
                    let outcome = self.commit_outcome();
                    self.finish(outcome)
                },
                other => self.give_up(other),
            },
        }
    }
}

/// How a document stands to its remote history.
#[derive(Clone, Copy, Debug, PartialEq, Eq, Structural)]
pub enum BindingState {
    /// No sidecar directory binds the document.
    Unbound,
    /// The document is bound, and the remote has what the local history has.
    Synced,
    /// The document is bound, and the local history has commits that the
    /// remote lacks.
    Diverged,
}

/// The state of a binding after an operation ended as `verdict` says. A
/// successful initialize or update leaves it synced; a commit that created
/// a commit on a bound document leaves it diverged; checkout, reset and
/// every failed operation leave it as it was.
pub open spec fn state_after(
    state: BindingState,
    operation: Operation,
    verdict: Result<Outcome, OogitError>,
) -> BindingState {
    match (operation, verdict) {
        (Operation::Initialize, Ok(_)) => BindingState::Synced,
        (Operation::Update, Ok(_)) => if state == BindingState::Unbound {
            state
        } else {
            BindingState::Synced
        },
        (Operation::Commit, Ok(Outcome::Committed)) => if state == BindingState::Unbound {
            state
        } else {
            BindingState::Diverged
        },
        _ => state,
    }
}

impl BindingState {
    /// The state after `operation` ended as `verdict` says.
    pub fn after(self, operation: Operation, verdict: Result<Outcome, OogitError>) -> (out:
        BindingState)
        ensures
            out == state_after(self, operation, verdict),
    {
        let bound = match self {
            BindingState::Unbound => false,
            _ => true,
        };
        match (operation, verdict) {
            (Operation::Initialize, Ok(_)) => BindingState::Synced,
            (Operation::Update, Ok(_)) => if bound {
                BindingState::Synced
            } else {
                self
            },
            (Operation::Commit, Ok(Outcome::Committed)) => if bound {
                BindingState::Diverged
            } else {
                self
            },
            _ => self,
        }
    }
}

/// Checkout and reset never change how a document stands to its history,
/// nor does an operation that failed; and only an initialize binds a
/// document that was unbound.
pub proof fn lemma_binding_state_moves(
    state: BindingState,
    operation: Operation,
    verdict: Result<Outcome, OogitError>,
)
    ensures
        operation == Operation::Checkout || operation == Operation::Reset || verdict is Err
            ==> state_after(state, operation, verdict) == state,
        state == BindingState::Unbound && operation != Operation::Initialize ==> state_after(
            state,
            operation,
            verdict,
        ) == BindingState::Unbound,
        state_after(state, operation, verdict) == BindingState::Unbound ==> state
            == BindingState::Unbound,
{
}

} // verus!
