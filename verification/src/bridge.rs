//! The rules of the version-control bridge: what an engine error means, when
//! a commit is created and on which parent, what is pushed where, and in
//! which order a revision is looked up.

use crate::binding::text_of;
use crate::error::OogitError;
use crate::lifecycle::Fault;
use crate::paths::{
    branch_ref, branch_ref_of, chars_of, push_refspec, push_refspec_of, tag_ref, tag_ref_of,
    tracking_ref, tracking_ref_of,
};
use vstd::prelude::*;
use vstd::string::*;

verus! {

/// The codes of the engine's errors that the rules tell apart.
#[derive(Clone, Copy, Debug, PartialEq, Eq, Structural)]
pub enum EngineCode {
    /// What was asked for does not exist.
    NotFound,
    /// The remote has commits that the push would lose.
    NotFastForward,
    /// The remote did not accept the credentials.
    Auth,
    /// The remote's certificate was not accepted.
    Certificate,
    /// Any other code.
    Other,
}

/// The classes of the engine's errors that the rules tell apart.
#[derive(Clone, Copy, Debug, PartialEq, Eq, Structural)]
pub enum EngineClass {
    /// A reference.
    Reference,
    /// The operating system.
    Os,
    /// The file system.
    Filesystem,
    /// Any other class.
    Other,
}

/// An error of the engine, as far as the rules read it.
#[derive(Clone, Copy, Debug, PartialEq, Eq, Structural)]
pub struct EngineError {
    pub code: EngineCode,
    pub class: EngineClass,
}

/// Whether an error comes from the machine the engine runs on.
pub open spec fn is_local(error: EngineError) -> bool {
    error.class == EngineClass::Os || error.class == EngineClass::Filesystem
}

/// What a failed clone reports: the branch asked for is missing upstream
/// exactly when a reference was not found.
pub open spec fn clone_fault_of(error: EngineError) -> Fault {
    if error.code == EngineCode::NotFound && error.class == EngineClass::Reference {
        Fault::NotFound
    } else {
        Fault::Other
    }
}

/// What a failed push reports.
pub open spec fn push_fault_of(error: EngineError) -> Fault {
    if is_local(error) {
        Fault::Io
    } else {
        Fault::Rejected
    }
}

/// What a failed move of the working tree to a revision reports.
pub open spec fn checkout_fault_of(error: EngineError) -> Fault {
    if error.code == EngineCode::NotFound {
        Fault::NotFound
    } else if is_local(error) {
        Fault::Io
    } else {
        Fault::Other
    }
}

fn local(error: EngineError) -> (out: bool)
    ensures
        out == is_local(error),
{
    match error.class {
        EngineClass::Os | EngineClass::Filesystem => true,
        _ => false,
    }
}

/// What a failed clone reports.
pub fn clone_fault(error: EngineError) -> (out: Fault)
    ensures
        out == clone_fault_of(error),
{
    match (error.code, error.class) {
        (EngineCode::NotFound, EngineClass::Reference) => Fault::NotFound,
        _ => Fault::Other,
    }
}

/// What a failed push reports.
pub fn push_fault(error: EngineError) -> (out: Fault)
    ensures
        out == push_fault_of(error),
{
    if local(error) {
        Fault::Io
    } else {
        Fault::Rejected
    }
}

/// What a failed move of the working tree to a revision reports.
pub fn checkout_fault(error: EngineError) -> (out: Fault)
    ensures
        out == checkout_fault_of(error),
{
    match error.code {
        EngineCode::NotFound => Fault::NotFound,
        _ => if local(error) {
            Fault::Io
        } else {
            Fault::Other
        },
    }
}

/// The tip of a branch: the id of its last commit and of that commit's tree.
#[derive(Clone, Debug, PartialEq, Eq)]
pub struct Tip {
    pub commit: Vec<u8>,
    pub tree: Vec<u8>,
}

/// A tip as a mathematical value.
pub struct TipView {
    pub commit: Seq<u8>,
    pub tree: Seq<u8>,
}

impl View for Tip {
    type V = TipView;

    open spec fn view(&self) -> TipView {
        TipView { commit: self.commit@, tree: self.tree@ }
    }
}

/// An optional tip as a mathematical value.
pub open spec fn tip_of(tip: Option<Tip>) -> Option<TipView> {
    match tip {
        Some(t) => Some(t@),
        None => None,
    }
}

/// The commit to create.
#[derive(Clone, Debug, PartialEq, Eq)]
pub struct CommitPlan {
    /// Its message.
    pub message: String,
    /// Its parent; none for the first commit of a history.
    pub parent: Option<Vec<u8>>,
}

/// A commit to create, as a mathematical value.
pub struct CommitPlanView {
    pub message: Seq<char>,
    pub parent: Option<Seq<u8>>,
}

impl View for CommitPlan {
    type V = CommitPlanView;

    open spec fn view(&self) -> CommitPlanView {
        CommitPlanView {
            message: self.message@,
            parent: match self.parent {
                Some(p) => Some(p@),
                None => None,
            },
        }
    }
}

/// An optional commit plan as a mathematical value.
pub open spec fn plan_of(plan: Option<CommitPlan>) -> Option<CommitPlanView> {
    match plan {
        Some(p) => Some(p@),
        None => None,
    }
}

/// Whether staging changed nothing: the staged tree is the tree of the tip,
/// or there is no tip and nothing is staged.
pub open spec fn nothing_changed(staged_tree: Seq<u8>, tip: Option<TipView>, index_empty: bool)
    -> bool {
    match tip {
        Some(t) => t.tree == staged_tree,
        None => index_empty,
    }
}

/// The commit that records the staged tree: none where nothing changed, and
/// otherwise one on top of the tip, or without parent where there is no tip.
pub open spec fn planned_commit(
    staged_tree: Seq<u8>,
    tip: Option<TipView>,
    index_empty: bool,
    message: Seq<char>,
) -> Option<CommitPlanView> {
    if nothing_changed(staged_tree, tip, index_empty) {
        None
    } else {
        Some(
            CommitPlanView {
                message,
                parent: match tip {
                    Some(t) => Some(t.commit),
                    None => None,
                },
            },
        )
    }
}

/// Whether two byte strings are the same.
fn same_bytes(a: &Vec<u8>, b: &Vec<u8>) -> (out: bool)
    ensures
        out == (a@ == b@),
{
    if a.len() != b.len() {
        return false;
    }
    let mut i: usize = 0;
    while i < a.len()
        invariant
            i <= a.len(),
            a.len() == b.len(),
            forall|j: int| 0 <= j < i ==> a[j] == b[j],
        decreases a.len() - i,
    {
        if a[i] != b[i] {
            return false;
        }
        i += 1;
    }
    assert(a@ =~= b@);
    true
}

/// Decides whether the staged tree is committed, and on which parent.
pub fn plan_commit(staged_tree: &Vec<u8>, tip: Option<Tip>, index_empty: bool, message: &str) -> (out:
    Option<CommitPlan>)
    ensures
        plan_of(out) == planned_commit(staged_tree@, tip_of(tip), index_empty, message@),
{
    match tip {
        Some(t) => {
            if same_bytes(&t.tree, staged_tree) {
                None
            } else {
                Some(CommitPlan { message: String::from_str(message), parent: Some(t.commit) })
            }
        },
        None => {
            if index_empty {
                None
            } else {
                Some(CommitPlan { message: String::from_str(message), parent: None })
            }
        },
    }
}

/// The branches of a history, as far as the rules speak of them: the tip of
/// each reference, the reference that is checked out, and each commit's
/// parent.
pub struct HistoryView {
    pub tips: Map<Seq<char>, Seq<u8>>,
    pub head: Seq<char>,
    pub parent: Map<Seq<u8>, Seq<u8>>,
}

impl HistoryView {
    /// The tip of the branch that is checked out, if it has a commit yet.
    pub open spec fn tip(self) -> Option<Seq<u8>> {
        if self.tips.contains_key(self.head) {
            Some(self.tips[self.head])
        } else {
            None
        }
    }

    /// The commits of a branch from `from` back, as far as `depth` reaches.
    pub open spec fn ancestry(self, from: Seq<u8>, depth: nat) -> Seq<Seq<u8>>
        decreases depth,
    {
        if depth == 0 {
            Seq::empty()
        } else if self.parent.contains_key(from) {
            seq![from] + self.ancestry(self.parent[from], (depth - 1) as nat)
        } else {
            seq![from]
        }
    }

    /// The history after the branch `branch` was created at the current tip
    /// and checked out.
    pub open spec fn adopt(self, branch: Seq<char>) -> HistoryView {
        match self.tip() {
            Some(id) => HistoryView {
                tips: self.tips.insert(branch_ref_of(branch), id),
                head: branch_ref_of(branch),
                ..self
            },
            None => HistoryView { head: branch_ref_of(branch), ..self },
        }
    }

    /// The history after a commit plan was carried out, the new commit
    /// getting the id `id`.
    pub open spec fn record(self, plan: Option<CommitPlanView>, id: Seq<u8>) -> HistoryView {
        match plan {
            Some(p) => HistoryView {
                tips: self.tips.insert(self.head, id),
                parent: match p.parent {
                    Some(parent) => self.parent.insert(id, parent),
                    None => self.parent,
                },
                ..self
            },
            None => self,
        }
    }
}

/// A branch created by the fallback stands at the tip that was cloned: it
/// has the commits of the cloned branch and no others, and no commit of the
/// history has changed.
pub proof fn lemma_adopted_branch_has_cloned_history(
    history: HistoryView,
    branch: Seq<char>,
    depth: nat,
)
    requires
        history.tip() is Some,
    ensures
        history.adopt(branch).head == branch_ref_of(branch),
        history.adopt(branch).tip() == history.tip(),
        history.adopt(branch).parent == history.parent,
        history.adopt(branch).ancestry(history.adopt(branch).tip().unwrap(), depth)
            == history.ancestry(history.tip().unwrap(), depth),
{
    lemma_ancestry_follows_parents(history, history.adopt(branch), history.tip().unwrap(), depth);
}

/// The commits of a branch depend on the parents of the commits alone.
pub proof fn lemma_ancestry_follows_parents(
    a: HistoryView,
    b: HistoryView,
    from: Seq<u8>,
    depth: nat,
)
    requires
        a.parent == b.parent,
    ensures
        a.ancestry(from, depth) == b.ancestry(from, depth),
    decreases depth,
{
    if depth > 0 && a.parent.contains_key(from) {
        lemma_ancestry_follows_parents(a, b, a.parent[from], (depth - 1) as nat);
    }
}

/// Where staging changed nothing no commit is planned, and the history
/// stays as it is: the tip of the branch is the same before and after.
pub proof fn lemma_no_change_keeps_tip(
    history: HistoryView,
    staged_tree: Seq<u8>,
    tip: Option<TipView>,
    index_empty: bool,
    message: Seq<char>,
    id: Seq<u8>,
)
    requires
        nothing_changed(staged_tree, tip, index_empty),
    ensures
        planned_commit(staged_tree, tip, index_empty, message).is_none(),
        history.record(planned_commit(staged_tree, tip, index_empty, message), id) == history,
        history.record(planned_commit(staged_tree, tip, index_empty, message), id).tip()
            == history.tip(),
{
}

/// Where to push, and what.
#[derive(Clone, Debug, PartialEq, Eq)]
pub struct PushPlan {
    /// The remote to push to.
    pub remote: String,
    /// The refspec to push.
    pub refspec: String,
}

/// A push plan as a mathematical value.
pub struct PushPlanView {
    pub remote: Seq<char>,
    pub refspec: Seq<char>,
}

impl View for PushPlan {
    type V = PushPlanView;

    open spec fn view(&self) -> PushPlanView {
        PushPlanView { remote: self.remote@, refspec: self.refspec@ }
    }
}

/// A result of `plan_push` as a mathematical value.
pub open spec fn push_plan_of(result: Result<PushPlan, OogitError>) -> Result<
    PushPlanView,
    OogitError,
> {
    match result {
        Ok(p) => Ok(p@),
        Err(e) => Err(e),
    }
}

/// The remote that the bridge talks to: the first that is configured.
pub open spec fn selected_remote(remotes: Seq<Seq<char>>) -> Result<Seq<char>, OogitError> {
    if remotes.len() == 0 {
        Err(OogitError::NoRemoteConfigured)
    } else {
        Ok(remotes[0])
    }
}

/// The push of the current branch: to the selected remote, onto the branch
/// of the same name. Without a remote there is nothing to push to; a head
/// without a branch name cannot be pushed.
pub open spec fn planned_push(remotes: Seq<Seq<char>>, head: Option<Seq<char>>) -> Result<
    PushPlanView,
    OogitError,
> {
    match selected_remote(remotes) {
        Ok(remote) => match head {
            Some(branch) => Ok(PushPlanView { remote, refspec: push_refspec_of(branch) }),
            None => Err(OogitError::PushRejected),
        },
        Err(error) => Err(error),
    }
}

/// A result of `select_remote` as a mathematical value.
pub open spec fn remote_of(result: Result<String, OogitError>) -> Result<Seq<char>, OogitError> {
    match result {
        Ok(name) => Ok(name@),
        Err(e) => Err(e),
    }
}

/// The names of a list as mathematical values.
pub open spec fn names_of(names: Seq<String>) -> Seq<Seq<char>> {
    names.map_values(|n: String| n@)
}

/// Picks the remote to talk to from the remotes of the working tree, given
/// in their order.
pub fn select_remote(remotes: &Vec<String>) -> (out: Result<String, OogitError>)
    ensures
        remote_of(out) == selected_remote(names_of(remotes@)),
{
    if remotes.len() == 0 {
        return Err(OogitError::NoRemoteConfigured);
    }
    Ok(remotes[0].clone())
}

/// Decides where the current branch is pushed, given the remotes of the
/// working tree in their order and the short name of its head.
pub fn plan_push(remotes: &Vec<String>, head: Option<&str>) -> (out: Result<PushPlan, OogitError>)
    ensures
        push_plan_of(out) == planned_push(
            names_of(remotes@),
            match head {
                Some(h) => Some(h@),
                None => None,
            },
        ),
{
    let remote = match select_remote(remotes) {
        Ok(remote) => remote,
        Err(error) => {
            return Err(error);
        },
    };
    match head {
        Some(branch) => Ok(PushPlan { remote, refspec: push_refspec(branch) }),
        None => Err(OogitError::PushRejected),
    }
}

/// One way to look a revision up.
#[derive(Clone, Debug, PartialEq, Eq)]
pub enum Lookup {
    /// As the id of an object, or the beginning of one.
    Object { id: String },
    /// As the full name of a reference.
    Reference { name: String },
}

/// A lookup as a mathematical value.
pub enum LookupView {
    Object { id: Seq<char> },
    Reference { name: Seq<char> },
}

impl View for Lookup {
    type V = LookupView;

    open spec fn view(&self) -> LookupView {
        match *self {
            Lookup::Object { id } => LookupView::Object { id: id@ },
            Lookup::Reference { name } => LookupView::Reference { name: name@ },
        }
    }
}

/// The lookups of a list as mathematical values.
pub open spec fn lookups_of(lookups: Seq<Lookup>) -> Seq<LookupView> {
    lookups.map_values(|l: Lookup| l@)
}

/// Whether a character is a hexadecimal digit.
pub open spec fn is_hex_digit(c: char) -> bool {
    ('0' <= c && c <= '9') || ('a' <= c && c <= 'f') || ('A' <= c && c <= 'F')
}

/// Whether a revision can be the id of an object: four to forty
/// hexadecimal digits.
pub open spec fn is_object_id(revision: Seq<char>) -> bool {
    &&& 4 <= revision.len() <= 40
    &&& forall|i: int| 0 <= i < revision.len() ==> is_hex_digit(#[trigger] revision[i])
}

/// The name under which a remote's own choice of branch is kept.
pub open spec fn remote_head() -> Seq<char> {
    "HEAD"@
}

/// The lookup of a branch as the remote has it, where there is a remote.
pub open spec fn tracking_lookup(remote: Option<Seq<char>>, branch: Seq<char>) -> Seq<LookupView> {
    match remote {
        Some(r) => seq![LookupView::Reference { name: tracking_ref_of(r, branch) }],
        None => Seq::empty(),
    }
}

/// The ways to look a revision up, in the order in which they are tried: as
/// an object id where it can be one, then as a tag, as a local branch and as
/// a branch of the remote. Without a revision, the tip of the bound branch
/// on the remote is meant, or of the remote's own choice.
pub open spec fn lookups_for(
    revision: Option<Seq<char>>,
    remote: Option<Seq<char>>,
    branch: Option<Seq<char>>,
) -> Seq<LookupView> {
    match revision {
        Some(r) => {
            let references = seq![
                LookupView::Reference { name: tag_ref_of(r) },
                LookupView::Reference { name: branch_ref_of(r) },
            ] + tracking_lookup(remote, r);
            if is_object_id(r) {
                seq![LookupView::Object { id: r }] + references
            } else {
                references
            }
        },
        None => match branch {
            Some(b) => tracking_lookup(remote, b),
            None => tracking_lookup(remote, remote_head()),
        },
    }
}

/// Whether `revision` can be the id of an object.
pub fn can_be_object_id(revision: &str) -> (out: bool)
    ensures
        out == is_object_id(revision@),
{
    let cs = chars_of(revision);
    if cs.len() < 4 || cs.len() > 40 {
        return false;
    }
    let mut i: usize = 0;
    while i < cs.len()
        invariant
            i <= cs.len(),
            cs@ == revision@,
            4 <= cs.len() <= 40,
            forall|j: int| 0 <= j < i ==> is_hex_digit(#[trigger] cs[j]),
        decreases cs.len() - i,
    {
        let c = cs[i];
        let hex = ('0' <= c && c <= '9') || ('a' <= c && c <= 'f') || ('A' <= c && c <= 'F');
        if !hex {
            assert(!is_hex_digit(revision@[i as int]));
            return false;
        }
        i += 1;
    }
    true
}

/// The ways to look `revision` up, in the order in which they are tried.
pub fn revision_lookups(revision: Option<&str>, remote: Option<&str>, branch: Option<&str>) -> (out:
    Vec<Lookup>)
    ensures
        lookups_of(out@) == lookups_for(
            match revision {
                Some(r) => Some(r@),
                None => None,
            },
            match remote {
                Some(r) => Some(r@),
                None => None,
            },
            match branch {
                Some(b) => Some(b@),
                None => None,
            },
        ),
{
    let mut lookups: Vec<Lookup> = Vec::new();
    let wanted = match revision {
        Some(r) => {
            if can_be_object_id(r) {
                lookups.push(Lookup::Object { id: String::from_str(r) });
            }
            lookups.push(Lookup::Reference { name: tag_ref(r) });
            lookups.push(Lookup::Reference { name: branch_ref(r) });
            r
        },
        None => match branch {
            Some(b) => b,
            None => "HEAD",
        },
    };
    match remote {
        Some(name) => {
            lookups.push(Lookup::Reference { name: tracking_ref(name, wanted) });
        },
        None => {},
    }
    assert(lookups_of(lookups@) =~= lookups_for(
        match revision {
            Some(r) => Some(r@),
            None => None,
        },
        match remote {
            Some(r) => Some(r@),
            None => None,
        },
        match branch {
            Some(b) => Some(b@),
            None => None,
        },
    ));
    lookups
}

/// Picks the lookup that decides what a revision means: the first that
/// found something. Where none did, the revision is not found.
pub fn resolve(found: &Vec<bool>) -> (out: Result<usize, OogitError>)
    ensures
        match out {
            Ok(i) => i < found.len() && found[i as int] && forall|j: int| 0 <= j < i ==> !found[j],
            Err(error) => error == OogitError::RevisionNotFound && forall|j: int|
                0 <= j < found.len() ==> !found[j],
        },
{
    let mut i: usize = 0;
    while i < found.len()
        invariant
            i <= found.len(),
            forall|j: int| 0 <= j < i ==> !found[j],
        decreases found.len() - i,
    {
        if found[i] {
            return Ok(i);
        }
        i += 1;
    }
    Err(OogitError::RevisionNotFound)
}

/// How the bridge proves who it is to a remote.
#[derive(Clone, Debug, PartialEq, Eq)]
pub enum Credential {
    /// Whatever the machine offers by itself.
    Anonymous,
    /// A key held by the ssh agent, for the user named.
    SshAgent { username: String },
    /// An access token.
    Token { token: String },
    /// A user name and a password.
    UserPass { username: String, password: String },
}

/// A credential as a mathematical value.
pub enum CredentialView {
    Anonymous,
    SshAgent { username: Seq<char> },
    Token { token: Seq<char> },
    UserPass { username: Seq<char>, password: Seq<char> },
}

impl View for Credential {
    type V = CredentialView;

    open spec fn view(&self) -> CredentialView {
        match *self {
            Credential::Anonymous => CredentialView::Anonymous,
            Credential::SshAgent { username } => CredentialView::SshAgent { username: username@ },
            Credential::Token { token } => CredentialView::Token { token: token@ },
            Credential::UserPass { username, password } => CredentialView::UserPass {
                username: username@,
                password: password@,
            },
        }
    }
}

/// Whether a setting is given: one that is empty counts as not given.
pub open spec fn is_given(value: Option<Seq<char>>) -> bool {
    value matches Some(text) && text.len() > 0
}

/// The credential that the settings choose: a token before a user name with
/// its password, these before a user of the ssh agent, and the anonymous
/// one where nothing is given.
pub open spec fn credential_for(
    token: Option<Seq<char>>,
    username: Option<Seq<char>>,
    password: Option<Seq<char>>,
    ssh_user: Option<Seq<char>>,
) -> CredentialView {
    if is_given(token) {
        CredentialView::Token { token: token.unwrap() }
    } else if is_given(username) && is_given(password) {
        CredentialView::UserPass { username: username.unwrap(), password: password.unwrap() }
    } else if is_given(ssh_user) {
        CredentialView::SshAgent { username: ssh_user.unwrap() }
    } else {
        CredentialView::Anonymous
    }
}

/// The text of a setting that is given.
fn setting(value: Option<String>) -> (out: Option<String>)
    ensures
        match out {
            Some(text) => is_given(text_of(value)) && text_of(value) == Some(text@),
            None => !is_given(text_of(value)),
        },
{
    match value {
        Some(text) => if text.as_str().is_empty() {
            None
        } else {
            Some(text)
        },
        None => None,
    }
}

/// Chooses the credential from the settings of the configuration.
pub fn choose_credential(
    token: Option<String>,
    username: Option<String>,
    password: Option<String>,
    ssh_user: Option<String>,
) -> (out: Credential)
    ensures
        out@ == credential_for(
            text_of(token),
            text_of(username),
            text_of(password),
            text_of(ssh_user),
        ),
{
    match setting(token) {
        Some(token) => {
            return Credential::Token { token };
        },
        None => {},
    }
    match (setting(username), setting(password)) {
        (Some(username), Some(password)) => {
            return Credential::UserPass { username, password };
        },
        _ => {},
    }
    match setting(ssh_user) {
        Some(username) => Credential::SshAgent { username },
        None => Credential::Anonymous,
    }
}

/// The kinds of proof that a remote accepts.
#[derive(Clone, Copy, Debug, PartialEq, Eq, Structural)]
pub struct Accepted {
    /// The machine's own default.
    pub default: bool,
    /// An ssh key.
    pub ssh_key: bool,
    /// A user name and a password in plain text.
    pub user_pass: bool,
    /// A user name alone.
    pub username: bool,
}

/// What the bridge answers when a remote asks who it is.
#[derive(Clone, Debug, PartialEq, Eq)]
pub enum Answer {
    /// The machine's own default.
    Default,
    /// A key from the ssh agent.
    SshAgent { username: String },
    /// A user name and a password in plain text.
    UserPass { username: String, password: String },
    /// A user name alone.
    Username { username: String },
    /// Nothing that the remote accepts.
    Refuse,
}

/// An answer as a mathematical value.
pub enum AnswerView {
    Default,
    SshAgent { username: Seq<char> },
    UserPass { username: Seq<char>, password: Seq<char> },
    Username { username: Seq<char> },
    Refuse,
}

impl View for Answer {
    type V = AnswerView;

    open spec fn view(&self) -> AnswerView {
        match *self {
            Answer::Default => AnswerView::Default,
            Answer::SshAgent { username } => AnswerView::SshAgent { username: username@ },
            Answer::UserPass { username, password } => AnswerView::UserPass {
                username: username@,
                password: password@,
            },
            Answer::Username { username } => AnswerView::Username { username: username@ },
            Answer::Refuse => AnswerView::Refuse,
        }
    }
}

/// The answer of each kind of credential to what a remote accepts. The
/// anonymous one always answers with the machine's default. A token goes as
/// the user name of a pair whose password is empty.
pub open spec fn answer_of(credential: CredentialView, accepted: Accepted) -> AnswerView {
    match credential {
        CredentialView::Anonymous => AnswerView::Default,
        CredentialView::SshAgent { username } => if accepted.ssh_key {
            AnswerView::SshAgent { username }
        } else if accepted.username {
            AnswerView::Username { username }
        } else {
            AnswerView::Refuse
        },
        CredentialView::Token { token } => if accepted.user_pass {
            AnswerView::UserPass { username: token, password: Seq::empty() }
        } else {
            AnswerView::Refuse
        },
        CredentialView::UserPass { username, password } => if accepted.user_pass {
            AnswerView::UserPass { username, password }
        } else {
            AnswerView::Refuse
        },
    }
}

impl Credential {
    /// What to answer a remote that accepts the kinds of proof in
    /// `accepted`.
    pub fn answer(&self, accepted: Accepted) -> (out: Answer)
        ensures
            out@ == answer_of(self@, accepted),
    {
        match self {
            Credential::Anonymous => Answer::Default,
            Credential::SshAgent { username } => {
                if accepted.ssh_key {
                    Answer::SshAgent { username: username.clone() }
                } else if accepted.username {
                    Answer::Username { username: username.clone() }
                } else {
                    Answer::Refuse
                }
            },
            Credential::Token { token } => {
                if accepted.user_pass {
                    Answer::UserPass { username: token.clone(), password: String::new() }
                } else {
                    Answer::Refuse
                }
            },
            Credential::UserPass { username, password } => {
                if accepted.user_pass {
                    Answer::UserPass { username: username.clone(), password: password.clone() }
                } else {
                    Answer::Refuse
                }
            },
        }
    }
}

} // verus!
