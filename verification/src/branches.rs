//! The branch catalog: the names of the branches, and the head of one.

use crate::common::{AppState, Failure, RepoError};
use crate::mutate::branch_ref;
use crate::object::CommitRecord;
use crate::store::{
    branch_names, commit_record, error_text, find_reference, open_repository, peel_to_commit,
};
use vstd::prelude::*;

verus! {

/// Which branches a listing takes in.
#[derive(Clone, Copy, Debug, PartialEq, Eq, Structural)]
pub enum BranchScope {
    Local,
    Remote,
    All,
}

/// What following a branch came to.
#[derive(Debug)]
pub enum BranchLookup {
    /// `refs/heads/<name>` does not exist.
    NoReference,
    /// The reference is there and leads to no commit.
    NoCommit,
    /// The commit at the head of the branch.
    Head(CommitRecord),
}

/// The names that are there, in order.
pub open spec fn present_model(items: Seq<Option<String>>) -> Seq<Seq<char>>
    decreases items.len(),
{
    if items.len() == 0 {
        Seq::empty()
    } else {
        let before = present_model(items.drop_last());
        match items.last() {
            Some(name) => before.push(name@),
            None => before,
        }
    }
}

/// A list of strings, each as its characters.
pub open spec fn names_view(names: Seq<String>) -> Seq<Seq<char>> {
    names.map_values(|n: String| n@)
}

/// Keeps the branches whose names could be read, in the order in which
/// they came; none in, none out.
pub fn present_names(items: &Vec<Option<String>>) -> (r: Vec<String>)
    ensures
        names_view(r@) == present_model(items@),
{
    let mut out: Vec<String> = Vec::new();
    let mut i: usize = 0;
    assert(items@.take(0) =~= Seq::<Option<String>>::empty());
    assert(names_view(out@) =~= present_model(items@.take(0)));
    while i < items.len()
        invariant
            i <= items.len(),
            names_view(out@) == present_model(items@.take(i as int)),
        decreases items.len() - i,
    {
        let ghost before = names_view(out@);
        assert(items@.take(i + 1).drop_last() =~= items@.take(i as int));
        assert(items@.take(i + 1).last() == items@[i as int]);
        match &items[i] {
            Some(name) => {
                out.push(name.clone());
                assert(names_view(out@) =~= before.push(name@));
            },
            None => {},
        }
        i += 1;
    }
    assert(items@.take(items.len() as int) =~= items@);
    out
}

/// Which branches the catalog lists: the local ones, and no others.
pub fn catalog_scope() -> (r: BranchScope)
    ensures
        r == BranchScope::Local,
{
    BranchScope::Local
}

/// The catalog from what the store listed: the names that could be read,
/// or `RepositoryUnavailable` where the store could not list.
pub open spec fn catalog_model(listed: Option<Seq<Option<String>>>) -> Result<
    Seq<Seq<char>>,
    RepoError,
> {
    match listed {
        Some(items) => Ok(present_model(items)),
        None => Err(RepoError::RepositoryUnavailable),
    }
}

/// What the store listed, as a mathematical value; a reason why it could
/// not list counts as no list.
pub open spec fn listed_view(listed: Result<Vec<Option<String>>, String>) -> Option<
    Seq<Option<String>>,
> {
    match listed {
        Ok(items) => Some(items@),
        Err(_) => None,
    }
}

/// A list of names or the kind of a failure, as a mathematical value.
pub open spec fn catalog_view(r: Result<Vec<String>, Failure>) -> Result<
    Seq<Seq<char>>,
    RepoError,
> {
    match r {
        Ok(names) => Ok(names_view(names@)),
        Err(failure) => Err(failure.error),
    }
}

/// The catalog from what the store listed, or from its reason why it could
/// not: the names that could be read, or a failure that carries the
/// reason.
pub fn catalog_of(listed: Result<Vec<Option<String>>, String>) -> (r: Result<
    Vec<String>,
    Failure,
>)
    ensures
        catalog_view(r) == catalog_model(listed_view(listed)),
        listed is Err ==> r is Err && r->Err_0.detail == listed->Err_0,
{
    match listed {
        Ok(items) => Ok(present_names(&items)),
        Err(reason) => Err(Failure::unavailable(reason)),
    }
}

/// The answer to a request for the branches: `RepositoryUnavailable` where
/// the repository did not open, else the catalog of what the store listed.
pub open spec fn branches_request_model(
    opened: bool,
    listed: Option<Seq<Option<String>>>,
) -> Result<Seq<Seq<char>>, RepoError> {
    if opened {
        catalog_model(listed)
    } else {
        Err(RepoError::RepositoryUnavailable)
    }
}

/// A result is that of a request for the branches for some answers of the
/// store.
pub open spec fn branches_request_holds(outcome: Result<Seq<Seq<char>>, RepoError>) -> bool {
    exists|opened: bool, listed: Option<Seq<Option<String>>>|
        outcome == #[trigger] branches_request_model(opened, listed)
}

/// Asks the store for the branches of a scope; where it cannot list, the
/// result is its reason.
fn try_list(repo: &git2::Repository, scope: BranchScope) -> (r: Result<
    Vec<Option<String>>,
    String,
>) {
    match branch_names(repo, scope) {
        Ok(items) => Ok(items),
        Err(e) => Err(error_text(&e)),
    }
}

/// Lists the local branches of the repository. A repository without
/// branches gives the empty list, which is no error.
///
/// What the store is asked for is `catalog_scope`; the result is
/// `branches_request_model` of what it answered.
pub fn get_branches(state: &AppState) -> (r: Result<Vec<String>, Failure>)
    ensures
        branches_request_holds(catalog_view(r)),
        r is Err ==> r->Err_0.error == RepoError::RepositoryUnavailable,
{
    let repo = match open_repository(state) {
        Ok(repo) => repo,
        Err(e) => {
            let failure = Failure::unavailable(error_text(&e));
            assert(catalog_view(Err(failure)) == branches_request_model(false, None));
            return Err(failure);
        },
    };
    let listed = try_list(&repo, catalog_scope());
    let ghost answer = listed_view(listed);
    let r = catalog_of(listed);
    assert(catalog_view(r) == branches_request_model(true, answer));
    r
}

/// The error for a branch whose head cannot be had: `BranchNotFound` where
/// the reference does not exist, `CorruptHistory` where it is there and
/// leads to no commit.
pub fn lookup_failure(reference_found: bool) -> (r: RepoError)
    ensures
        r == if reference_found {
            RepoError::CorruptHistory
        } else {
            RepoError::BranchNotFound
        },
{
    if reference_found {
        RepoError::CorruptHistory
    } else {
        RepoError::BranchNotFound
    }
}

/// The head of a branch from what following it came to: the commit, or
/// `BranchNotFound` where the reference does not exist, or `CorruptHistory`
/// where it leads to no commit.
pub open spec fn head_model(lookup: BranchLookup) -> Result<CommitRecord, RepoError> {
    match lookup {
        BranchLookup::NoReference => Err(RepoError::BranchNotFound),
        BranchLookup::NoCommit => Err(RepoError::CorruptHistory),
        BranchLookup::Head(commit) => Ok(commit),
    }
}

/// The head of a branch from what following it came to.
pub fn head_from(lookup: BranchLookup) -> (r: Result<CommitRecord, RepoError>)
    ensures
        r == head_model(lookup),
{
    match lookup {
        BranchLookup::NoReference => Err(lookup_failure(false)),
        BranchLookup::NoCommit => Err(lookup_failure(true)),
        BranchLookup::Head(commit) => Ok(commit),
    }
}

/// Follows `refs/heads/<name>` as far as the repository lets it.
fn follow_branch(repo: &git2::Repository, name: &str) -> (r: BranchLookup) {
    let refname = branch_ref(name);
    match find_reference(repo, refname.as_str()) {
        Err(_) => BranchLookup::NoReference,
        Ok(reference) => match peel_to_commit(&reference) {
            Err(_) => BranchLookup::NoCommit,
            Ok(commit) => BranchLookup::Head(commit_record(&commit)),
        },
    }
}

/// Follows `refs/heads/<name>` to the commit at the head of the branch.
///
/// Whether the reference exists and whether it leads to a commit is for
/// the repository to say; the result is what `head_model` gives for what
/// it said.
pub fn resolve_branch(repo: &git2::Repository, name: &str) -> (r: Result<CommitRecord, RepoError>)
    ensures
        exists|lookup: BranchLookup| r == head_model(lookup),
        r is Err ==> r->Err_0 == RepoError::BranchNotFound || r->Err_0
            == RepoError::CorruptHistory,
{
    head_from(follow_branch(repo, name))
}

} // verus!
