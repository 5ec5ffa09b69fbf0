//! Reading a file as text, and committing new text for it.

use crate::branches::{head_model, resolve_branch, BranchLookup};
use crate::common::{AppState, Failure, RepoError};
use crate::mutate::{
    commit_edit, commit_holds, edit_holds, edit_model, receipt_view, EditAnswers, EditReceipt,
    ReceiptModel,
};
use crate::object::{hex_of, EntryModel, ObjectId};
use crate::path::split_path;
use crate::resolve::{blob_model, blob_of, resolve_model, resolve_path, resolved_view};
use crate::store::{error_text, open_repository, read_blob, text_from_utf8};
use vstd::prelude::*;
use vstd::utf8::{decode_utf8, encode_utf8, valid_utf8};

verus! {

/// The body of an edit request.
#[derive(Debug)]
pub struct UpdateBlobRequest {
    pub content: String,
    pub message: String,
    pub name: String,
    pub email: String,
}

/// The bytes of a blob as text: the text that they encode if they are
/// valid UTF-8, `NotText` if they are not.
pub open spec fn decode_model(bytes: Seq<u8>) -> Result<Seq<char>, RepoError> {
    if valid_utf8(bytes) {
        Ok(decode_utf8(bytes))
    } else {
        Err(RepoError::NotText)
    }
}

/// A text or an error, as a mathematical value.
pub open spec fn text_view(r: Result<String, RepoError>) -> Result<Seq<char>, RepoError> {
    match r {
        Ok(text) => Ok(text@),
        Err(e) => Err(e),
    }
}

/// The bytes of a blob as text: the text that they encode if they are
/// valid UTF-8, `NotText` if they are not. Binary content never comes out
/// as garbled text.
pub fn decode_text(bytes: Vec<u8>) -> (r: Result<String, RepoError>)
    ensures
        text_view(r) == decode_model(bytes@),
{
    match text_from_utf8(bytes) {
        Some(text) => Ok(text),
        None => Err(RepoError::NotText),
    }
}

/// The content of a blob from what the store handed back for its id: a
/// blob that cannot be read is `CorruptHistory`, one that can is decoded.
pub open spec fn content_model(read: Option<Seq<u8>>) -> Result<Seq<char>, RepoError> {
    match read {
        Some(bytes) => decode_model(bytes),
        None => Err(RepoError::CorruptHistory),
    }
}

/// Bytes that were read, as a mathematical value.
pub open spec fn bytes_view(read: Option<Vec<u8>>) -> Option<Seq<u8>> {
    match read {
        Some(bytes) => Some(bytes@),
        None => None,
    }
}

/// The text of a blob from what the store handed back for its id.
pub fn text_of(read: Option<Vec<u8>>) -> (r: Result<String, RepoError>)
    ensures
        text_view(r) == content_model(bytes_view(read)),
{
    match read {
        Some(bytes) => decode_text(bytes),
        None => Err(RepoError::CorruptHistory),
    }
}

/// The text at a path below a root tree, over what the store hands back:
/// the trees along the path and the bytes of the blob. A path that names a
/// directory is `WrongKind`.
pub open spec fn text_model(
    path_reads: Seq<Option<Seq<EntryModel>>>,
    bytes: Option<Seq<u8>>,
    root: Seq<u8>,
    path: Seq<u8>,
) -> Result<Seq<char>, RepoError> {
    match blob_model(resolve_model(path_reads, root, path)) {
        Err(e) => Err(e),
        Ok(_) => content_model(bytes),
    }
}

/// The text at a path on a branch, over what the store hands back: what
/// following the branch came to, the trees along the path, and the bytes
/// of the blob.
pub open spec fn read_model(
    lookup: BranchLookup,
    path_reads: Seq<Option<Seq<EntryModel>>>,
    bytes: Option<Seq<u8>>,
    path: Seq<u8>,
) -> Result<Seq<char>, RepoError> {
    match head_model(lookup) {
        Err(e) => Err(e),
        Ok(head) => text_model(path_reads, bytes, head@.tree, path),
    }
}

/// A result is that of a read for some answers of the store.
pub open spec fn read_holds(path: Seq<u8>, outcome: Result<Seq<char>, RepoError>) -> bool {
    exists|lookup: BranchLookup, path_reads: Seq<Option<Seq<EntryModel>>>, bytes: Option<Seq<u8>>|
        outcome == #[trigger] read_model(lookup, path_reads, bytes, path)
}

/// The answer to a request for a file: `RepositoryUnavailable` where the
/// repository did not open, else what the read gives.
pub open spec fn blob_request_model(
    opened: bool,
    lookup: BranchLookup,
    path_reads: Seq<Option<Seq<EntryModel>>>,
    bytes: Option<Seq<u8>>,
    path: Seq<u8>,
) -> Result<Seq<char>, RepoError> {
    if opened {
        read_model(lookup, path_reads, bytes, path)
    } else {
        Err(RepoError::RepositoryUnavailable)
    }
}

/// A result is that of a request for a file for some answers of the
/// store.
pub open spec fn blob_request_holds(path: Seq<u8>, outcome: Result<Seq<char>, RepoError>) -> bool {
    exists|
        opened: bool,
        lookup: BranchLookup,
        path_reads: Seq<Option<Seq<EntryModel>>>,
        bytes: Option<Seq<u8>>,
    |
        outcome == #[trigger] blob_request_model(opened, lookup, path_reads, bytes, path)
}

/// The text that confirms an edit.
pub open spec fn confirmation_text(path: Seq<char>, branch: Seq<char>, commit: Seq<u8>) -> Seq<
    char,
> {
    "Updated '"@ + path + "' in branch '"@ + branch + "' with commit "@ + hex_of(commit)
}

/// Confirms an edit: the path, the branch and the new commit's id in
/// hexadecimal.
pub fn confirmation(path: &str, branch: &str, commit: &ObjectId) -> (r: String)
    ensures
        r@ == confirmation_text(path@, branch@, commit@),
{
    let mut text = "Updated '".to_owned();
    text.append(path);
    text.append("' in branch '");
    text.append(branch);
    text.append("' with commit ");
    let hex = commit.to_hex();
    text.append(hex.as_str());
    text
}

/// Reads a blob, if the store has it.
fn try_read_blob(repo: &git2::Repository, id: &ObjectId) -> (r: Option<Vec<u8>>) {
    match read_blob(repo, id) {
        Ok(bytes) => Some(bytes),
        Err(_) => None,
    }
}

/// Reads the file at `path` on `branch` from an open repository.
///
/// The result is `read_model` of what the store handed back: the error of
/// the branch lookup or of the path resolution, `WrongKind` for a path
/// that names a directory, `CorruptHistory` for a blob that cannot be
/// read, `NotText` for bytes that are not valid UTF-8, and else the text
/// that the bytes encode.
pub fn read_text(repo: &git2::Repository, branch: &str, path: &str) -> (r: Result<
    String,
    RepoError,
>)
    ensures
        read_holds(encode_utf8(path@), text_view(r)),
        r is Err ==> r->Err_0 == RepoError::BranchNotFound || r->Err_0 == RepoError::CorruptHistory
            || r->Err_0 == RepoError::PathNotFound || r->Err_0 == RepoError::WrongKind || r->Err_0
            == RepoError::NotText,
        path@.len() == 0 ==> r is Err && r->Err_0 != RepoError::PathNotFound && r->Err_0
            != RepoError::NotText,
{
    let ghost bytes = encode_utf8(path@);
    proof {
        if path@.len() == 0 {
            assert(bytes.len() == 0) by {
                reveal_with_fuel(encode_utf8, 1);
            }
        }
    }
    let looked = resolve_branch(repo, branch);
    let ghost lookup = choose|lookup: BranchLookup| looked == head_model(lookup);
    let head = match looked {
        Ok(head) => head,
        Err(e) => {
            assert(text_view(Err(e)) == read_model(lookup, Seq::empty(), None, bytes));
            return Err(e);
        },
    };
    let resolved = resolve_path(repo, &head.tree, path.as_bytes());
    let ghost path_reads = choose|reads: Seq<Option<Seq<EntryModel>>>|
        resolved_view(resolved) == resolve_model(reads, head.tree@, bytes);
    let id = match blob_of(resolved) {
        Ok(id) => id,
        Err(e) => {
            assert(text_view(Err(e)) == read_model(lookup, path_reads, None, bytes));
            return Err(e);
        },
    };
    let read = try_read_blob(repo, &id);
    let ghost content = bytes_view(read);
    let r = text_of(read);
    assert(text_view(r) == read_model(lookup, path_reads, content, bytes));
    r
}

/// The answer to a request as a mathematical value: the text, or the kind
/// of the failure.
pub open spec fn answer_view(r: Result<String, Failure>) -> Result<Seq<char>, RepoError> {
    match r {
        Ok(text) => Ok(text@),
        Err(failure) => Err(failure.error),
    }
}

/// The answer to a request from the result of the work in the open
/// repository: the text, or a failure of the same kind with nothing more to
/// say.
pub fn answer_of(done: Result<String, RepoError>) -> (r: Result<String, Failure>)
    ensures
        answer_view(r) == text_view(done),
        r is Err ==> r->Err_0.detail@ == Seq::<char>::empty(),
{
    match done {
        Ok(text) => Ok(text),
        Err(e) => Err(Failure::plain(e)),
    }
}

/// Reads the file at `path` on `branch` as UTF-8 text.
///
/// The result is `blob_request_model` of what the repository handed back.
/// Where the repository is unavailable the failure carries the store's
/// reason; every other failure carries nothing.
pub fn get_blob(state: &AppState, branch: &str, path: &str) -> (r: Result<String, Failure>)
    ensures
        blob_request_holds(encode_utf8(path@), answer_view(r)),
        r is Err ==> r->Err_0.error == RepoError::RepositoryUnavailable || r->Err_0.error
            == RepoError::BranchNotFound || r->Err_0.error == RepoError::CorruptHistory
            || r->Err_0.error == RepoError::PathNotFound || r->Err_0.error == RepoError::WrongKind
            || r->Err_0.error == RepoError::NotText,
        r is Err && r->Err_0.error != RepoError::RepositoryUnavailable ==> r->Err_0.detail@
            == Seq::<char>::empty(),
        path@.len() == 0 ==> r is Err,
{
    let ghost bytes = encode_utf8(path@);
    let repo = match open_repository(state) {
        Ok(repo) => repo,
        Err(e) => {
            assert(text_view(Err(RepoError::RepositoryUnavailable)) == blob_request_model(
                false,
                BranchLookup::NoReference,
                Seq::empty(),
                None,
                bytes,
            ));
            return Err(Failure::unavailable(error_text(&e)));
        },
    };
    let done = read_text(&repo, branch, path);
    let r = answer_of(done);
    proof {
        let (lookup, path_reads, content) = choose|
            lookup: BranchLookup,
            path_reads: Seq<Option<Seq<EntryModel>>>,
            content: Option<Seq<u8>>,
        |
            text_view(done) == #[trigger] read_model(lookup, path_reads, content, bytes);
        assert(answer_view(r) == blob_request_model(true, lookup, path_reads, content, bytes));
    }
    r
}

/// Whether a text confirms an edit: there is a receipt that accounts for
/// the edit of this path to the content of the request and for the commit
/// with the message and identity of the request, and the text names the
/// path, the branch and the commit of that receipt.
pub open spec fn confirms(
    text: Seq<char>,
    path: Seq<char>,
    branch: Seq<char>,
    request: UpdateBlobRequest,
) -> bool {
    exists|receipt: EditReceipt|
        #![trigger receipt.commit]
        edit_holds(split_path(encode_utf8(path)), encode_utf8(request.content@), receipt)
            && commit_holds(request.name@, request.email@, request.message@, receipt) && text
            == confirmation_text(path, branch, receipt.commit@)
}

/// The answer to an edit: the confirmation of its receipt, or its error.
pub open spec fn answer_model(
    path: Seq<char>,
    branch: Seq<char>,
    edit: Result<ReceiptModel, RepoError>,
) -> Result<Seq<char>, RepoError> {
    match edit {
        Ok(receipt) => Ok(confirmation_text(path, branch, receipt.commit)),
        Err(e) => Err(e),
    }
}

/// The answer to a request for an edit, over what the store answers:
/// `RepositoryUnavailable` where the repository did not open, else the
/// answer to the edit.
pub open spec fn update_model(
    opened: bool,
    answers: EditAnswers,
    path: Seq<char>,
    branch: Seq<char>,
    request: UpdateBlobRequest,
) -> Result<Seq<char>, RepoError> {
    if opened {
        answer_model(
            path,
            branch,
            edit_model(
                answers,
                encode_utf8(path),
                encode_utf8(request.content@),
                request.message@,
                request.name@,
                request.email@,
            ),
        )
    } else {
        Err(RepoError::RepositoryUnavailable)
    }
}

/// A result is that of a request for an edit for some answers of the
/// store.
pub open spec fn update_holds(
    path: Seq<char>,
    branch: Seq<char>,
    request: UpdateBlobRequest,
    outcome: Result<Seq<char>, RepoError>,
) -> bool {
    exists|opened: bool, answers: EditAnswers|
        outcome == #[trigger] update_model(opened, answers, path, branch, request)
}

/// The answer to an edit: the confirmation of its receipt, or its error.
pub fn edit_answer(path: &str, branch: &str, edit: Result<EditReceipt, RepoError>) -> (r: Result<
    String,
    RepoError,
>)
    ensures
        text_view(r) == answer_model(path@, branch@, receipt_view(edit)),
{
    match edit {
        Ok(receipt) => Ok(confirmation(path, branch, &receipt.commit)),
        Err(e) => Err(e),
    }
}

/// Commits `payload.content` as the new content of `path` on `branch` and
/// confirms it in words.
pub fn update_blob(state: &AppState, branch: &str, path: &str, payload: &UpdateBlobRequest) -> (r:
    Result<String, Failure>)
    ensures
        update_holds(path@, branch@, *payload, answer_view(r)),
        r is Ok ==> confirms(r->Ok_0@, path@, branch@, *payload),
        r is Err ==> r->Err_0.error != RepoError::NotText && r->Err_0.error
            != RepoError::AttributionFailure,
        r is Err && r->Err_0.error != RepoError::RepositoryUnavailable ==> r->Err_0.detail@
            == Seq::<char>::empty(),
{
    let repo = match open_repository(state) {
        Ok(repo) => repo,
        Err(e) => {
            proof {
                let none = EditAnswers {
                    lookup: BranchLookup::NoReference,
                    blob_written: false,
                    reads: Seq::empty(),
                    trees_written: false,
                    time: None,
                    commit_written: false,
                    advance: None,
                };
                assert(text_view(Err(RepoError::RepositoryUnavailable)) == update_model(
                    false,
                    none,
                    path@,
                    branch@,
                    *payload,
                ));
            }
            return Err(Failure::unavailable(error_text(&e)));
        },
    };
    let edit = commit_edit(
        &repo,
        branch,
        path,
        payload.content.as_str(),
        payload.message.as_str(),
        payload.name.as_str(),
        payload.email.as_str(),
    );
    let done = edit_answer(path, branch, edit);
    let r = answer_of(done);
    proof {
        let answers = choose|answers: EditAnswers|
            receipt_view(edit) == #[trigger] edit_model(
                answers,
                encode_utf8(path@),
                encode_utf8(payload.content@),
                payload.message@,
                payload.name@,
                payload.email@,
            );
        assert(answer_view(r) == update_model(true, answers, path@, branch@, *payload));
        if edit is Ok {
            let receipt = edit->Ok_0;
            assert(edit_holds(
                split_path(encode_utf8(path@)),
                encode_utf8(payload.content@),
                receipt,
            ) && commit_holds(payload.name@, payload.email@, payload.message@, receipt) && r->Ok_0@
                == confirmation_text(path@, branch@, receipt.commit@));
        }
    }
    r
}

} // verus!
