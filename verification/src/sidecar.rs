//! The sidecar directory of a document: when it may be claimed, and what has
//! to be cleared away first.

use crate::binding::{decoded, BindingRecord, BindingView};
use crate::error::OogitError;
use crate::paths::{sidecar_dir, sidecar_of, working_tree_dir, working_tree_of};
use vstd::prelude::*;
use vstd::string::*;

verus! {

/// What to do to the sidecar directory before a history is cloned into it.
#[derive(Clone, Debug, PartialEq, Eq)]
pub struct Preparation {
    /// The sidecar directory.
    pub sidecar_dir: String,
    /// The working tree directory inside it, to be created empty.
    pub working_tree: String,
    /// Whether the working tree directory exists and has to be removed first.
    pub remove_first: bool,
}

/// A preparation as a mathematical value.
pub struct PreparationView {
    pub sidecar_dir: Seq<char>,
    pub working_tree: Seq<char>,
    pub remove_first: bool,
}

impl View for Preparation {
    type V = PreparationView;

    open spec fn view(&self) -> PreparationView {
        PreparationView {
            sidecar_dir: self.sidecar_dir@,
            working_tree: self.working_tree@,
            remove_first: self.remove_first,
        }
    }
}

/// A sidecar directory may be claimed where none exists, and where
/// overwriting is allowed.
pub open spec fn may_claim(force: bool, sidecar_exists: bool) -> bool {
    force || !sidecar_exists
}

/// The preparation of the sidecar directory of `document`, or the refusal.
pub open spec fn prepared(
    document: Seq<char>,
    force: bool,
    sidecar_exists: bool,
    tree_exists: bool,
) -> Result<PreparationView, OogitError> {
    if may_claim(force, sidecar_exists) {
        Ok(
            PreparationView {
                sidecar_dir: sidecar_of(document),
                working_tree: working_tree_of(document),
                remove_first: tree_exists,
            },
        )
    } else {
        Err(OogitError::AlreadyBound)
    }
}

/// A result of `prepare` as a mathematical value.
pub open spec fn preparation_of(result: Result<Preparation, OogitError>) -> Result<
    PreparationView,
    OogitError,
> {
    match result {
        Ok(p) => Ok(p@),
        Err(e) => Err(e),
    }
}

/// Decides how the sidecar directory of `document` is claimed, given what
/// was found on disk.
///
/// Refuses with `AlreadyBound` exactly when the directory exists and `force`
/// is not set. Otherwise the working tree directory is to be created, after
/// removing it where it exists.
pub fn prepare(document: &str, force: bool, sidecar_exists: bool, tree_exists: bool) -> (out:
    Result<Preparation, OogitError>)
    ensures
        preparation_of(out) == prepared(document@, force, sidecar_exists, tree_exists),
{
    if sidecar_exists && !force {
        return Err(OogitError::AlreadyBound);
    }
    Ok(
        Preparation {
            sidecar_dir: sidecar_dir(document),
            working_tree: working_tree_dir(document),
            remove_first: tree_exists,
        },
    )
}

/// With leave to overwrite the sidecar directory is claimed whatever was
/// found on disk, and the working tree is removed exactly where it exists.
pub proof fn lemma_force_always_claims(document: Seq<char>, sidecar_exists: bool, tree_exists: bool)
    ensures
        prepared(document, true, sidecar_exists, tree_exists) is Ok,
        prepared(document, true, sidecar_exists, tree_exists)->Ok_0.remove_first == tree_exists,
        prepared(document, true, sidecar_exists, tree_exists)->Ok_0.sidecar_dir == sidecar_of(
            document,
        ),
{
}

/// Without leave to overwrite an existing sidecar directory is never
/// claimed, whatever else was found.
pub proof fn lemma_bound_is_refused(document: Seq<char>, tree_exists: bool)
    ensures
        prepared(document, false, true, tree_exists) == Err::<PreparationView, OogitError>(
            OogitError::AlreadyBound,
        ),
{
}

/// The binding that the sidecar directory of `document` holds, given the
/// stored text where there is one: without a text, or with one that stores
/// no record, the document is unbound.
pub open spec fn resolved(document: Seq<char>, stored: Option<Seq<char>>) -> Result<
    BindingView,
    OogitError,
> {
    match stored {
        Some(text) => match decoded(text, document) {
            Some(found) => Ok(found),
            None => Err(OogitError::UnboundDocument),
        },
        None => Err(OogitError::UnboundDocument),
    }
}

/// A result of `resolve` as a mathematical value.
pub open spec fn resolution_of(result: Result<BindingRecord, OogitError>) -> Result<
    BindingView,
    OogitError,
> {
    match result {
        Ok(r) => Ok(r@),
        Err(e) => Err(e),
    }
}

/// Recovers the binding of `document` from the text stored in its sidecar
/// directory, where there is one.
pub fn resolve(document: &str, stored: Option<&str>) -> (out: Result<BindingRecord, OogitError>)
    ensures
        resolution_of(out) == resolved(
            document@,
            match stored {
                Some(t) => Some(t@),
                None => None,
            },
        ),
        out matches Ok(r) ==> r@.well_formed(),
{
    match stored {
        Some(text) => match BindingRecord::decode(text, document) {
            Some(record) => Ok(record),
            None => Err(OogitError::UnboundDocument),
        },
        None => Err(OogitError::UnboundDocument),
    }
}

} // verus!
