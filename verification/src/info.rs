//! The name of the repository and its default branch.

use crate::common::{AppState, Failure, RepoError};
use crate::store::{
    error_text, head_reference, last_component, open_repository, path_text, reference_shorthand,
    repository_path, resolve_reference,
};
use vstd::prelude::*;

verus! {

/// What the repository is called and which branch `HEAD` names.
#[derive(Debug)]
pub struct RepositoryInfo {
    pub name: String,
    pub main_branch: Option<String>,
}

impl RepositoryInfo {
    /// The name is that of the repository's directory, or `unknown` where
    /// there is none; the branch is taken as it is.
    pub fn new(directory: Option<String>, main_branch: Option<String>) -> (r: RepositoryInfo)
        ensures
            r.name@ == match directory {
                Some(d) => d@,
                None => "unknown"@,
            },
            r.main_branch == main_branch,
    {
        let name = match directory {
            Some(d) => d,
            None => "unknown".to_owned(),
        };
        RepositoryInfo { name, main_branch }
    }
}

/// The name of the directory that holds the repository, where it has one
/// that is valid UTF-8.
fn directory_name(repo: &git2::Repository) -> (r: Option<String>) {
    let path = repository_path(repo);
    match last_component(&path) {
        Some(name) => path_text(&name),
        None => None,
    }
}

/// The short name of the branch that `HEAD` leads to, if it leads to one.
fn head_branch(repo: &git2::Repository) -> (r: Option<String>) {
    match head_reference(repo) {
        Err(_) => None,
        Ok(head) => match resolve_reference(&head) {
            Err(_) => None,
            Ok(resolved) => reference_shorthand(&resolved),
        },
    }
}

/// Describes the repository. The only failure is that it cannot be opened,
/// and it carries the store's reason.
pub fn get_info(state: &AppState) -> (r: Result<RepositoryInfo, Failure>)
    ensures
        r is Err ==> r->Err_0.error == RepoError::RepositoryUnavailable,
{
    let repo = match open_repository(state) {
        Ok(repo) => repo,
        Err(e) => {
            return Err(Failure::unavailable(error_text(&e)));
        },
    };
    let directory = directory_name(&repo);
    let main_branch = head_branch(&repo);
    Ok(RepositoryInfo::new(directory, main_branch))
}

} // verus!
