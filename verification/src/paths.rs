//! Names of the places an operation works on: the sidecar directory, the
//! working tree in it, the mount point, and the references of the history.

use vstd::prelude::*;
use vstd::string::*;

verus! {

/// The separator between the components of a path.
pub const SEPARATOR: char = '/';

/// Whether `path` begins with the separator.
pub open spec fn is_rooted(path: Seq<char>) -> bool {
    path.len() > 0 && path[0] == SEPARATOR
}

/// A sub-path as the binding stores it: unchanged where it already begins
/// with the separator, and with one separator put in front otherwise.
pub open spec fn normalized(path: Seq<char>) -> Seq<char> {
    if is_rooted(path) {
        path
    } else {
        seq![SEPARATOR] + path
    }
}

/// A stored sub-path always begins with the separator; one that already did
/// is stored as it is, any other with one separator in front; and storing
/// what is stored changes nothing more.
pub proof fn lemma_normalized(path: Seq<char>)
    ensures
        is_rooted(normalized(path)),
        is_rooted(path) ==> normalized(path) == path,
        !is_rooted(path) ==> normalized(path) == seq![SEPARATOR] + path,
        normalized(Seq::empty()) == seq![SEPARATOR],
        normalized(normalized(path)) == normalized(path),
{
    assert(seq![SEPARATOR] + Seq::<char>::empty() =~= seq![SEPARATOR]);
}

/// The sidecar directory of a document: its path with a fixed suffix.
pub open spec fn sidecar_of(document: Seq<char>) -> Seq<char> {
    document + ".oogit"@
}

/// The working tree inside the sidecar directory of a document.
pub open spec fn working_tree_of(document: Seq<char>) -> Seq<char> {
    sidecar_of(document) + "/repo"@
}

/// The file inside the sidecar directory that holds the binding record.
pub open spec fn binding_file_of(document: Seq<char>) -> Seq<char> {
    sidecar_of(document) + "/binding"@
}

/// The file inside the sidecar directory that one invocation holds while it
/// works, to keep others out.
pub open spec fn lock_file_of(document: Seq<char>) -> Seq<char> {
    sidecar_of(document) + "/lock"@
}

/// The directory of the working tree that mirrors the document.
pub open spec fn mount_of(document: Seq<char>, path_in_repo: Seq<char>) -> Seq<char> {
    working_tree_of(document) + path_in_repo
}

/// `name` below `dir`: a rooted `name` stands alone, and one separator is put
/// between the two unless `dir` is empty or already ends with one.
pub open spec fn joined(dir: Seq<char>, name: Seq<char>) -> Seq<char> {
    if is_rooted(name) {
        name
    } else if dir.len() == 0 || dir.last() == SEPARATOR {
        dir + name
    } else {
        dir + seq![SEPARATOR] + name
    }
}

/// The full name of a local branch.
pub open spec fn branch_ref_of(branch: Seq<char>) -> Seq<char> {
    "refs/heads/"@ + branch
}

/// The full name of a tag.
pub open spec fn tag_ref_of(tag: Seq<char>) -> Seq<char> {
    "refs/tags/"@ + tag
}

/// The full name of the remote-tracking branch of `branch` on `remote`.
pub open spec fn tracking_ref_of(remote: Seq<char>, branch: Seq<char>) -> Seq<char> {
    "refs/remotes/"@ + remote + seq![SEPARATOR] + branch
}

/// The refspec that pushes a local branch to the branch of the same name.
pub open spec fn push_refspec_of(branch: Seq<char>) -> Seq<char> {
    branch_ref_of(branch) + ":"@ + branch_ref_of(branch)
}

/// A document path as seen from the directory `cwd`: a rooted path, and any
/// path when no directory is given, stands as it is.
pub open spec fn located(cwd: Option<Seq<char>>, document: Seq<char>) -> Seq<char> {
    match cwd {
        Some(dir) => joined(dir, document),
        None => document,
    }
}

/// The characters of `s`, in order.
pub fn chars_of(s: &str) -> (v: Vec<char>)
    ensures
        v@ == s@,
{
    let mut v: Vec<char> = Vec::new();
    for c in it: s.chars()
        invariant
            v@ == it.seq().subrange(0, it.index() as int),
            it.seq() == s@,
    {
        v.push(c);
    }
    v
}

/// Brings a sub-path within the working tree to its stored form.
pub fn normalize_path_in_repo(path: &str) -> (out: String)
    ensures
        out@ == normalized(path@),
{
    if !path.is_empty() && path.get_char(0) == SEPARATOR {
        String::from_str(path)
    } else {
        proof {
            reveal_strlit("/");
            assert("/"@ =~= seq![SEPARATOR]);
        }
        String::from_str("/").concat(path)
    }
}

/// The sidecar directory of `document`.
pub fn sidecar_dir(document: &str) -> (out: String)
    ensures
        out@ == sidecar_of(document@),
{
    String::from_str(document).concat(".oogit")
}

/// The working tree inside the sidecar directory of `document`.
pub fn working_tree_dir(document: &str) -> (out: String)
    ensures
        out@ == working_tree_of(document@),
{
    sidecar_dir(document).concat("/repo")
}

/// The file that holds the binding record of `document`.
pub fn binding_file(document: &str) -> (out: String)
    ensures
        out@ == binding_file_of(document@),
{
    sidecar_dir(document).concat("/binding")
}

/// The lock file of `document`.
pub fn lock_file(document: &str) -> (out: String)
    ensures
        out@ == lock_file_of(document@),
{
    sidecar_dir(document).concat("/lock")
}

/// The directory of the working tree that mirrors `document`.
pub fn mount_dir(document: &str, path_in_repo: &str) -> (out: String)
    ensures
        out@ == mount_of(document@, path_in_repo@),
{
    working_tree_dir(document).concat(path_in_repo)
}

/// `name` below `dir`.
pub fn join(dir: &str, name: &str) -> (out: String)
    ensures
        out@ == joined(dir@, name@),
{
    if !name.is_empty() && name.get_char(0) == SEPARATOR {
        return String::from_str(name);
    }
    let n = dir.unicode_len();
    if n == 0 || dir.get_char(n - 1) == SEPARATOR {
        String::from_str(dir).concat(name)
    } else {
        proof {
            reveal_strlit("/");
            assert("/"@ =~= seq![SEPARATOR]);
        }
        String::from_str(dir).concat("/").concat(name)
    }
}

/// The full name of the local branch `branch`.
pub fn branch_ref(branch: &str) -> (out: String)
    ensures
        out@ == branch_ref_of(branch@),
{
    String::from_str("refs/heads/").concat(branch)
}

/// The full name of the tag `tag`.
pub fn tag_ref(tag: &str) -> (out: String)
    ensures
        out@ == tag_ref_of(tag@),
{
    String::from_str("refs/tags/").concat(tag)
}

/// The full name of the remote-tracking branch of `branch` on `remote`.
pub fn tracking_ref(remote: &str, branch: &str) -> (out: String)
    ensures
        out@ == tracking_ref_of(remote@, branch@),
{
    proof {
        reveal_strlit("/");
        assert("/"@ =~= seq![SEPARATOR]);
    }
    String::from_str("refs/remotes/").concat(remote).concat("/").concat(branch)
}

/// The refspec that pushes `branch` to the branch of the same name.
pub fn push_refspec(branch: &str) -> (out: String)
    ensures
        out@ == push_refspec_of(branch@),
{
    let name = branch_ref(branch);
    let mut out = name.clone();
    out.append(":");
    out.append(name.as_str());
    out
}

/// `document` as seen from the directory `cwd`, where one is given.
pub fn locate(cwd: Option<&str>, document: &str) -> (out: String)
    ensures
        out@ == located(
            match cwd {
                Some(dir) => Some(dir@),
                None => None,
            },
            document@,
        ),
{
    match cwd {
        Some(dir) => join(dir, document),
        None => String::from_str(document),
    }
}

} // verus!
