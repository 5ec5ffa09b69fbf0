//! Shared state and the error taxonomy.

use std::path::PathBuf;
use std::sync::Arc;
use vstd::prelude::*;

verus! {

/// `std::path::PathBuf`, carried through verified code as an opaque value.
#[verifier::external_type_specification]
#[verifier::external_body]
pub struct ExPathBuf(PathBuf);

/// Where the bare repository lives; shared by all requests.
#[derive(Clone)]
pub struct AppState {
    pub repo_path: Arc<PathBuf>,
}

/// Every way a request can fail. None of them ends the process.
#[derive(Clone, Copy, Debug, PartialEq, Eq, Structural)]
pub enum RepoError {
    /// No bare repository could be opened at the configured location.
    RepositoryUnavailable,
    /// `refs/heads/<name>` does not exist.
    BranchNotFound,
    /// A reference does not lead to a commit, or an object that the history
    /// refers to cannot be read.
    CorruptHistory,
    /// A path component names no entry of its directory.
    PathNotFound,
    /// A path component names an entry of the wrong kind.
    WrongKind,
    /// A blob was asked for as text and is not valid UTF-8.
    NotText,
    /// The first-parent history ran out before every entry was accounted for.
    AttributionFailure,
    /// The object store refused to write a blob, a tree or a commit.
    WriteFailed,
    /// The branch pointer could not be advanced.
    RefUpdateFailed,
    /// The branch moved between reading its head and advancing it.
    ConcurrentModification,
}

impl RepoError {
    /// The text of the message for each error.
    pub open spec fn spec_message(self) -> Seq<char> {
        match self {
            RepoError::RepositoryUnavailable => "repository unavailable"@,
            RepoError::BranchNotFound => "branch not found"@,
            RepoError::CorruptHistory => "corrupt history"@,
            RepoError::PathNotFound => "path not found"@,
            RepoError::WrongKind => "wrong kind of object"@,
            RepoError::NotText => "file is not valid UTF-8"@,
            RepoError::AttributionFailure => "no commit found for entry"@,
            RepoError::WriteFailed => "write failed"@,
            RepoError::RefUpdateFailed => "branch update failed"@,
            RepoError::ConcurrentModification => "branch was modified concurrently"@,
        }
    }

    /// The HTTP status that goes with each error.
    pub open spec fn spec_status(self) -> u16 {
        match self {
            RepoError::RepositoryUnavailable => 503,
            RepoError::BranchNotFound => 404,
            RepoError::PathNotFound => 404,
            RepoError::WrongKind => 400,
            RepoError::NotText => 422,
            RepoError::ConcurrentModification => 409,
            RepoError::CorruptHistory => 500,
            RepoError::AttributionFailure => 500,
            RepoError::WriteFailed => 500,
            RepoError::RefUpdateFailed => 500,
        }
    }

    /// The HTTP status for the response: not found for a missing branch or
    /// path, conflict for a branch that moved, unprocessable for a blob
    /// that is not text.
    pub fn status(&self) -> (r: u16)
        ensures
            r == self.spec_status(),
    {
        match self {
            RepoError::RepositoryUnavailable => 503,
            RepoError::BranchNotFound => 404,
            RepoError::PathNotFound => 404,
            RepoError::WrongKind => 400,
            RepoError::NotText => 422,
            RepoError::ConcurrentModification => 409,
            RepoError::CorruptHistory => 500,
            RepoError::AttributionFailure => 500,
            RepoError::WriteFailed => 500,
            RepoError::RefUpdateFailed => 500,
        }
    }

    /// The message for each error when the branch and the path of the
    /// request are known.
    pub open spec fn spec_describe(self, branch: Seq<char>, path: Seq<char>) -> Seq<char> {
        match self {
            RepoError::RepositoryUnavailable => "Error opening repo"@,
            RepoError::BranchNotFound => "Branch '"@ + branch + "' not found"@,
            RepoError::CorruptHistory => "Failed to resolve commit for '"@ + branch + "'"@,
            RepoError::PathNotFound => "Path '"@ + path + "' not found in branch '"@ + branch
                + "'"@,
            RepoError::WrongKind => "Path '"@ + path + "' is not of the kind asked for"@,
            RepoError::NotText => "File is not valid UTF-8"@,
            RepoError::AttributionFailure => "No commit found for an entry of '"@ + path + "'"@,
            RepoError::WriteFailed => "Failed to write '"@ + path + "'"@,
            RepoError::RefUpdateFailed => "Failed to update branch '"@ + branch + "'"@,
            RepoError::ConcurrentModification => "Branch '"@ + branch
                + "' was modified concurrently"@,
        }
    }

    /// A message for the response body that names the branch or the path
    /// that the error is about.
    pub fn describe(&self, branch: &str, path: &str) -> (r: String)
        ensures
            r@ == self.spec_describe(branch@, path@),
    {
        match self {
            RepoError::RepositoryUnavailable => "Error opening repo".to_owned(),
            RepoError::BranchNotFound => {
                let mut text = "Branch '".to_owned();
                text.append(branch);
                text.append("' not found");
                text
            },
            RepoError::CorruptHistory => {
                let mut text = "Failed to resolve commit for '".to_owned();
                text.append(branch);
                text.append("'");
                text
            },
            RepoError::PathNotFound => {
                let mut text = "Path '".to_owned();
                text.append(path);
                text.append("' not found in branch '");
                text.append(branch);
                text.append("'");
                text
            },
            RepoError::WrongKind => {
                let mut text = "Path '".to_owned();
                text.append(path);
                text.append("' is not of the kind asked for");
                text
            },
            RepoError::NotText => "File is not valid UTF-8".to_owned(),
            RepoError::AttributionFailure => {
                let mut text = "No commit found for an entry of '".to_owned();
                text.append(path);
                text.append("'");
                text
            },
            RepoError::WriteFailed => {
                let mut text = "Failed to write '".to_owned();
                text.append(path);
                text.append("'");
                text
            },
            RepoError::RefUpdateFailed => {
                let mut text = "Failed to update branch '".to_owned();
                text.append(branch);
                text.append("'");
                text
            },
            RepoError::ConcurrentModification => {
                let mut text = "Branch '".to_owned();
                text.append(branch);
                text.append("' was modified concurrently");
                text
            },
        }
    }

    /// A human-readable message for the response body.
    pub fn message(&self) -> (r: String)
        ensures
            r@ == self.spec_message(),
    {
        match self {
            RepoError::RepositoryUnavailable => "repository unavailable".to_owned(),
            RepoError::BranchNotFound => "branch not found".to_owned(),
            RepoError::CorruptHistory => "corrupt history".to_owned(),
            RepoError::PathNotFound => "path not found".to_owned(),
            RepoError::WrongKind => "wrong kind of object".to_owned(),
            RepoError::NotText => "file is not valid UTF-8".to_owned(),
            RepoError::AttributionFailure => "no commit found for entry".to_owned(),
            RepoError::WriteFailed => "write failed".to_owned(),
            RepoError::RefUpdateFailed => "branch update failed".to_owned(),
            RepoError::ConcurrentModification => "branch was modified concurrently".to_owned(),
        }
    }
}

/// A failed request: the kind of failure, and what the failure is about
/// where that is known. For a repository that cannot be opened the detail
/// is the store's own reason; for an entry that the history does not
/// account for it is the full path of the entry; else it is empty.
#[derive(Debug)]
pub struct Failure {
    pub error: RepoError,
    pub detail: String,
}

impl Failure {
    /// A failure with nothing more to say.
    pub fn plain(error: RepoError) -> (r: Failure)
        ensures
            r.error == error,
            r.detail@ == Seq::<char>::empty(),
    {
        Failure { error, detail: String::new() }
    }

    /// The failure of a repository that cannot be opened or read, with
    /// the store's reason.
    pub fn unavailable(reason: String) -> (r: Failure)
        ensures
            r.error == RepoError::RepositoryUnavailable,
            r.detail == reason,
    {
        Failure { error: RepoError::RepositoryUnavailable, detail: reason }
    }

    /// The failure of a listing that cannot account for an entry, with
    /// the full path of that entry.
    pub fn unaccounted(entry: String) -> (r: Failure)
        ensures
            r.error == RepoError::AttributionFailure,
            r.detail == entry,
    {
        Failure { error: RepoError::AttributionFailure, detail: entry }
    }

    /// The text of the message for a failure.
    pub open spec fn spec_describe(self, branch: Seq<char>, path: Seq<char>) -> Seq<char> {
        match self.error {
            RepoError::RepositoryUnavailable => "Error opening repo: "@ + self.detail@,
            RepoError::AttributionFailure => "No commit found for file: "@ + self.detail@,
            _ => self.error.spec_describe(branch, path),
        }
    }

    /// A message for the response body: the store's reason for a
    /// repository that is unavailable, the entry's path for an entry
    /// without a commit, and else the branch or the path of the request.
    pub fn describe(&self, branch: &str, path: &str) -> (r: String)
        ensures
            r@ == self.spec_describe(branch@, path@),
    {
        match self.error {
            RepoError::RepositoryUnavailable => {
                let mut text = "Error opening repo: ".to_owned();
                text.append(self.detail.as_str());
                text
            },
            RepoError::AttributionFailure => {
                let mut text = "No commit found for file: ".to_owned();
                text.append(self.detail.as_str());
                text
            },
            _ => self.error.describe(branch, path),
        }
    }
}

} // verus!
