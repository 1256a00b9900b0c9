//! The command surface: what a user can ask for, and the session that each
//! request starts.

use crate::binding::{text_of, unbound, BindingRecord, BindingView};
use crate::lifecycle::{Operation, Phase, Session, SessionView};
use crate::paths::{lemma_normalized, locate, located, normalized};
use vstd::prelude::*;
use vstd::string::*;

verus! {

/// One invocation: an optional directory to work from, and a command.
#[derive(Clone, Debug, PartialEq, Eq)]
pub struct Cli {
    /// The directory that document paths are relative to.
    pub cwd: Option<String>,
    /// What to do.
    pub command: Commands,
}

/// The five commands.
#[derive(Clone, Debug, PartialEq, Eq)]
pub enum Commands {
    /// Initialize the repository and link it to the document.
    Init {
        /// The commit message.
        message: Option<String>,
        /// Overwrite an existing sidecar.
        force: bool,
        /// Path of the document.
        ooxml_file: String,
        /// Location of the repository.
        git_repo: String,
        /// Branch name.
        branch: Option<String>,
        /// Path in the repository.
        path_in_repo: Option<String>,
    },
    /// Check repository content out into the document.
    Checkout {
        /// Overwrite an existing document.
        force: bool,
        /// Path of the document.
        ooxml_file: String,
        /// Location of the repository.
        git_repo: String,
        /// Branch name.
        branch: Option<String>,
        /// Path in the repository.
        path_in_repo: Option<String>,
    },
    /// Commit changes of the document into the repository.
    Commit {
        /// The commit message.
        message: Option<String>,
        /// Path of the document.
        ooxml_file: String,
    },
    /// Bring the repository and the document together.
    Update {
        /// The commit message.
        message: Option<String>,
        /// Overwrite the document where the remote has moved on.
        force: bool,
        /// Path of the document.
        ooxml_file: String,
    },
    /// Reset the document to a commit or tag.
    Reset {
        /// Path of the document.
        ooxml_file: String,
        /// Commit id or tag.
        tag_or_commit: Option<String>,
    },
}

/// The sub-path that a command asks for: the root where it names none.
pub open spec fn sub_path_of(path_in_repo: Option<String>) -> Seq<char> {
    match path_in_repo {
        Some(p) => normalized(p@),
        None => normalized(Seq::empty()),
    }
}

/// The binding that `init` and `checkout` ask for.
pub open spec fn binding_for(
    cwd: Option<String>,
    ooxml_file: String,
    git_repo: String,
    branch: Option<String>,
    path_in_repo: Option<String>,
    force: bool,
) -> BindingView {
    BindingView {
        document_path: located(text_of(cwd), ooxml_file@),
        repo_url: git_repo@,
        branch: text_of(branch),
        path_in_repo: sub_path_of(path_in_repo),
        force,
    }
}

/// The binding that a command asks for is well-formed, so a session keeps it
/// as it is.
pub proof fn lemma_binding_for_is_settled(
    cwd: Option<String>,
    ooxml_file: String,
    git_repo: String,
    branch: Option<String>,
    path_in_repo: Option<String>,
    force: bool,
)
    ensures
        binding_for(cwd, ooxml_file, git_repo, branch, path_in_repo, force).well_formed(),
        binding_for(cwd, ooxml_file, git_repo, branch, path_in_repo, force).settled()
            == binding_for(cwd, ooxml_file, git_repo, branch, path_in_repo, force),
{
    lemma_normalized(sub_path_of(path_in_repo));
    match path_in_repo {
        Some(p) => lemma_normalized(p@),
        None => lemma_normalized(Seq::empty()),
    }
}

/// The session that an invocation starts: its operation, the document as
/// seen from the directory given, and what the command says of remote,
/// branch, sub-path, message and revision.
pub open spec fn session_for(cli: Cli) -> SessionView {
    match cli.command {
        Commands::Init { message, force, ooxml_file, git_repo, branch, path_in_repo } => SessionView {
            operation: Operation::Initialize,
            phase: Phase::Idle,
            binding: binding_for(cli.cwd, ooxml_file, git_repo, branch, path_in_repo, force),
            message: text_of(message),
            revision: None,
            stale_tree: false,
            committed: false,
        },
        Commands::Checkout { force, ooxml_file, git_repo, branch, path_in_repo } => SessionView {
            operation: Operation::Checkout,
            phase: Phase::Idle,
            binding: binding_for(cli.cwd, ooxml_file, git_repo, branch, path_in_repo, force),
            message: None,
            revision: None,
            stale_tree: false,
            committed: false,
        },
        Commands::Commit { message, ooxml_file } => SessionView {
            operation: Operation::Commit,
            phase: Phase::Idle,
            binding: unbound(located(text_of(cli.cwd), ooxml_file@), false),
            message: text_of(message),
            revision: None,
            stale_tree: false,
            committed: false,
        },
        Commands::Update { message, force, ooxml_file } => SessionView {
            operation: Operation::Update,
            phase: Phase::Idle,
            binding: unbound(located(text_of(cli.cwd), ooxml_file@), force),
            message: text_of(message),
            revision: None,
            stale_tree: false,
            committed: false,
        },
        Commands::Reset { ooxml_file, tag_or_commit } => SessionView {
            operation: Operation::Reset,
            phase: Phase::Idle,
            binding: unbound(located(text_of(cli.cwd), ooxml_file@), false),
            message: None,
            revision: text_of(tag_or_commit),
            stale_tree: false,
            committed: false,
        },
    }
}

/// A borrowed optional string.
fn borrowed(text: &Option<String>) -> (out: Option<&str>)
    ensures
        match out {
            Some(t) => text_of(*text) == Some(t@),
            None => text_of(*text).is_none(),
        },
{
    match text {
        Some(t) => Some(t.as_str()),
        None => None,
    }
}

/// A copy of an optional string.
fn copied(text: &Option<String>) -> (out: Option<String>)
    ensures
        text_of(out) == text_of(*text),
{
    match text {
        Some(t) => Some(t.clone()),
        None => None,
    }
}

impl Cli {
    /// The binding that `init` and `checkout` ask for.
    fn binding(
        &self,
        ooxml_file: &String,
        git_repo: &String,
        branch: &Option<String>,
        path_in_repo: &Option<String>,
        force: bool,
    ) -> (out: BindingRecord)
        ensures
            out@ == binding_for(self.cwd, *ooxml_file, *git_repo, *branch, *path_in_repo, force),
            out@.well_formed(),
    {
        let document = locate(borrowed(&self.cwd), ooxml_file.as_str());
        let sub_path = match path_in_repo {
            Some(p) => p.as_str(),
            None => "",
        };
        proof {
            reveal_strlit("");
            assert(""@ =~= Seq::<char>::empty());
        }
        BindingRecord::new(
            document.as_str(),
            git_repo.as_str(),
            borrowed(branch),
            sub_path,
            force,
        )
    }

    /// The session that carries this invocation out.
    pub fn session(&self) -> (out: Session)
        ensures
            out@ == session_for(*self),
    {
        match &self.command {
            Commands::Init { message, force, ooxml_file, git_repo, branch, path_in_repo } => {
                let binding = self.binding(ooxml_file, git_repo, branch, path_in_repo, *force);
                proof {
                    lemma_binding_for_is_settled(
                        self.cwd,
                        *ooxml_file,
                        *git_repo,
                        *branch,
                        *path_in_repo,
                        *force,
                    );
                }
                Session::initialize(binding, copied(message))
            },
            Commands::Checkout { force, ooxml_file, git_repo, branch, path_in_repo } => {
                let binding = self.binding(ooxml_file, git_repo, branch, path_in_repo, *force);
                proof {
                    lemma_binding_for_is_settled(
                        self.cwd,
                        *ooxml_file,
                        *git_repo,
                        *branch,
                        *path_in_repo,
                        *force,
                    );
                }
                Session::checkout(binding)
            },
            Commands::Commit { message, ooxml_file } => {
                let document = locate(borrowed(&self.cwd), ooxml_file.as_str());
                Session::commit(document.as_str(), copied(message))
            },
            Commands::Update { message, force, ooxml_file } => {
                let document = locate(borrowed(&self.cwd), ooxml_file.as_str());
                Session::update(document.as_str(), copied(message), *force)
            },
            Commands::Reset { ooxml_file, tag_or_commit } => {
                let document = locate(borrowed(&self.cwd), ooxml_file.as_str());
                Session::reset(document.as_str(), copied(tag_or_commit))
            },
        }
    }
}

} // verus!
