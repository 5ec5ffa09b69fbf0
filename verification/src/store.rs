//! The boundary to the object store. Everything here is taken on trust: each
//! function makes the calls into `git2` (or `std`) that its comment names
//! and converts what goes in and what comes out; none of them decides
//! anything. What a call reads depends on what is on disk, so most of them
//! promise nothing; the exceptions are the in-memory tree and tree builder,
//! whose contents have a name, and the content address of what is written.

use crate::branches::BranchScope;
use crate::common::AppState;
use crate::mutate::RefUpdate;
use crate::object::{entries_view, CommitRecord, EntryModel, ObjectId, TreeEntry};
use std::path::PathBuf;
use vstd::prelude::*;
use vstd::utf8::{decode_utf8, valid_utf8};

verus! {

/// `git2::Repository`: an open repository.
#[verifier::external_type_specification]
#[verifier::external_body]
pub struct ExRepository(git2::Repository);

/// `git2::Error`: why a call into the object store failed.
#[verifier::external_type_specification]
#[verifier::external_body]
pub struct ExStoreError(git2::Error);

/// `git2::Reference`: a named pointer, as read at one moment.
#[verifier::external_type_specification]
#[verifier::external_body]
pub struct ExReference<'repo>(git2::Reference<'repo>);

/// `git2::Commit`: a commit object in memory.
#[verifier::external_type_specification]
#[verifier::external_body]
pub struct ExCommit<'repo>(git2::Commit<'repo>);

/// `git2::Tree`: a tree object in memory.
#[verifier::external_type_specification]
#[verifier::external_body]
pub struct ExTree<'repo>(git2::Tree<'repo>);

/// `git2::TreeBuilder`: an in-memory map from entry names to objects, from
/// which a tree is written.
#[verifier::external_type_specification]
#[verifier::external_body]
pub struct ExTreeBuilder<'repo>(git2::TreeBuilder<'repo>);

/// The two paths that one difference between two trees carries.
#[derive(Clone, Debug)]
pub struct DeltaPaths {
    pub new_path: Option<Vec<u8>>,
    pub old_path: Option<Vec<u8>>,
}

/// The entries of a tree in memory, in the order in which it lists them.
pub uninterp spec fn tree_entries(tree: git2::Tree) -> Seq<EntryModel>;

/// What a tree builder holds: for each name, the id and the file mode of
/// the entry.
pub uninterp spec fn builder_entries(builder: git2::TreeBuilder) -> Map<Seq<u8>, (Seq<u8>, u32)>;

/// The content address of the tree that holds exactly the given entries.
pub uninterp spec fn tree_id_of(entries: Map<Seq<u8>, (Seq<u8>, u32)>) -> Seq<u8>;

/// The content address of the blob with the given bytes.
pub uninterp spec fn blob_id_of(content: Seq<u8>) -> Seq<u8>;

/// The content address of the commit with the given identity and time for
/// both author and committer, the given message, tree and parents.
pub uninterp spec fn commit_id_of(
    name: Seq<char>,
    email: Seq<char>,
    seconds: i64,
    offset: i32,
    message: Seq<char>,
    tree: Seq<u8>,
    parents: Seq<Seq<u8>>,
) -> Seq<u8>;

/// The map that a list of entries stands for. Where a name occurs twice,
/// the later entry counts.
pub open spec fn entries_map(entries: Seq<EntryModel>) -> Map<Seq<u8>, (Seq<u8>, u32)>
    decreases entries.len(),
{
    if entries.len() == 0 {
        Map::empty()
    } else {
        entries_map(entries.drop_last()).insert(
            entries.last().name,
            (entries.last().id, entries.last().mode),
        )
    }
}

/// `Repository::open_bare` on the configured location. Nothing is claimed
/// of the outcome.
#[verifier::external_body]
pub(crate) fn open_repository(state: &AppState) -> (r: Result<git2::Repository, git2::Error>) {
    git2::Repository::open_bare(state.repo_path.as_path())
}

/// `Repository::path`: where the repository lies. Nothing is claimed of the
/// outcome.
#[verifier::external_body]
pub(crate) fn repository_path(repo: &git2::Repository) -> (r: PathBuf) {
    repo.path().to_path_buf()
}

/// `Path::file_name`: the last component of a path, as a path of its own.
/// Nothing is claimed of the outcome.
#[verifier::external_body]
pub(crate) fn last_component(path: &PathBuf) -> (r: Option<PathBuf>) {
    path.file_name().map(|name| PathBuf::from(name))
}

/// `Path::to_str`: a path as text, where it is valid UTF-8. Nothing is
/// claimed of the outcome.
#[verifier::external_body]
pub(crate) fn path_text(path: &PathBuf) -> (r: Option<String>) {
    path.to_str().map(|s| s.to_owned())
}

/// `Repository::head`. Nothing is claimed of the outcome.
#[verifier::external_body]
pub(crate) fn head_reference<'r>(repo: &'r git2::Repository) -> (r: Result<
    git2::Reference<'r>,
    git2::Error,
>) {
    repo.head()
}

/// `Reference::resolve`. Nothing is claimed of the outcome.
#[verifier::external_body]
pub(crate) fn resolve_reference<'r>(reference: &git2::Reference<'r>) -> (r: Result<
    git2::Reference<'r>,
    git2::Error,
>) {
    reference.resolve()
}

/// `Reference::shorthand`, where it is valid UTF-8. Nothing is claimed of
/// the outcome.
#[verifier::external_body]
pub(crate) fn reference_shorthand(reference: &git2::Reference) -> (r: Option<String>) {
    reference.shorthand().ok().map(|s| s.to_owned())
}

/// `Repository::branches` over the branches of the given scope: for each
/// one its name, or `None` where the branch or its name cannot be read as
/// UTF-8. Nothing is claimed of the outcome.
#[verifier::external_body]
pub(crate) fn branch_names(repo: &git2::Repository, scope: BranchScope) -> (r: Result<
    Vec<Option<String>>,
    git2::Error,
>) {
    let filter = match scope {
        BranchScope::Local => Some(git2::BranchType::Local),
        BranchScope::Remote => Some(git2::BranchType::Remote),
        BranchScope::All => None,
    };
    let branches = repo.branches(filter)?;
    Ok(
        branches.map(
            |b| b.ok().and_then(|(branch, _)| branch.name().ok().flatten().map(|n| n.to_owned())),
        ).collect(),
    )
}

/// `Repository::find_reference`. Nothing is claimed of the outcome.
#[verifier::external_body]
pub(crate) fn find_reference<'r>(repo: &'r git2::Repository, name: &str) -> (r: Result<
    git2::Reference<'r>,
    git2::Error,
>) {
    repo.find_reference(name)
}

/// `Reference::peel_to_commit`. Nothing is claimed of the outcome.
#[verifier::external_body]
pub(crate) fn peel_to_commit<'r>(reference: &git2::Reference<'r>) -> (r: Result<
    git2::Commit<'r>,
    git2::Error,
>) {
    reference.peel_to_commit()
}

/// `Repository::find_commit`. Nothing is claimed of the outcome.
#[verifier::external_body]
pub(crate) fn find_commit<'r>(repo: &'r git2::Repository, id: &ObjectId) -> (r: Result<
    git2::Commit<'r>,
    git2::Error,
>) {
    repo.find_commit(git2::Oid::from_bytes(&id.bytes)?)
}

/// The accessors of `git2::Commit` that the logic reads: `id`, `tree_id`,
/// `parent_ids`, `summary` and the time of `author`. Nothing is claimed of
/// the outcome.
#[verifier::external_body]
pub(crate) fn commit_record(commit: &git2::Commit) -> (r: CommitRecord) {
    CommitRecord {
        id: ObjectId { bytes: commit.id().as_bytes().try_into().unwrap() },
        tree: ObjectId { bytes: commit.tree_id().as_bytes().try_into().unwrap() },
        parents: commit.parent_ids().map(
            |p| ObjectId { bytes: p.as_bytes().try_into().unwrap() },
        ).collect(),
        summary: commit.summary().ok().flatten().map(|s| s.to_owned()),
        time: commit.author().when().seconds(),
    }
}

/// `Repository::find_tree`. Nothing is claimed of the outcome.
#[verifier::external_body]
pub(crate) fn find_tree<'r>(repo: &'r git2::Repository, id: &ObjectId) -> (r: Result<
    git2::Tree<'r>,
    git2::Error,
>) {
    repo.find_tree(git2::Oid::from_bytes(&id.bytes)?)
}

/// `Tree::iter`, each entry by its `name_bytes`, `id` and `filemode_raw`:
/// the list is what the tree holds, in its order.
#[verifier::external_body]
pub(crate) fn tree_list(tree: &git2::Tree) -> (r: Vec<TreeEntry>)
    ensures
        entries_view(r@) == tree_entries(*tree),
{
    tree.iter().map(
        |e|
            TreeEntry {
                name: e.name_bytes().to_vec(),
                id: ObjectId { bytes: e.id().as_bytes().try_into().unwrap() },
                mode: e.filemode_raw() as u32,
            },
    ).collect()
}

/// `Repository::find_blob` and the blob's `content`. Nothing is claimed of
/// the outcome.
#[verifier::external_body]
pub(crate) fn read_blob(repo: &git2::Repository, id: &ObjectId) -> (r: Result<
    Vec<u8>,
    git2::Error,
>) {
    Ok(repo.find_blob(git2::Oid::from_bytes(&id.bytes)?)?.content().to_vec())
}

/// `Repository::blob`: where the write succeeds, the id is the content
/// address of the bytes.
#[verifier::external_body]
pub(crate) fn write_blob(repo: &git2::Repository, data: &[u8]) -> (r: Result<
    ObjectId,
    git2::Error,
>)
    ensures
        r is Ok ==> r->Ok_0@ == blob_id_of(data@),
{
    repo.blob(data).map(|oid| ObjectId { bytes: oid.as_bytes().try_into().unwrap() })
}

/// `Repository::treebuilder` on an existing tree: the builder starts with
/// the entries of that tree.
#[verifier::external_body]
pub(crate) fn builder_from<'r>(repo: &'r git2::Repository, base: &git2::Tree) -> (r: Result<
    git2::TreeBuilder<'r>,
    git2::Error,
>)
    ensures
        r is Ok ==> builder_entries(r->Ok_0) == entries_map(tree_entries(*base)),
{
    repo.treebuilder(Some(base))
}

/// `TreeBuilder::insert`: on success the name maps to the given object and
/// mode and every other name keeps what it had; on failure nothing changes.
#[verifier::external_body]
pub(crate) fn builder_insert(
    builder: &mut git2::TreeBuilder,
    name: &Vec<u8>,
    id: &ObjectId,
    mode: u32,
) -> (r: Result<(), git2::Error>)
    ensures
        r is Ok ==> builder_entries(*final(builder)) == builder_entries(*old(builder)).insert(
            name@,
            (id@, mode),
        ),
        r is Err ==> builder_entries(*final(builder)) == builder_entries(*old(builder)),
{
    let oid = git2::Oid::from_bytes(&id.bytes)?;
    builder.insert(name.as_slice(), oid, mode as i32).map(|_| ())
}

/// `TreeBuilder::write`: where the write succeeds, the id is the content
/// address of the entries that the builder holds.
#[verifier::external_body]
pub(crate) fn builder_write(builder: &git2::TreeBuilder) -> (r: Result<ObjectId, git2::Error>)
    ensures
        r is Ok ==> r->Ok_0@ == tree_id_of(builder_entries(*builder)),
{
    builder.write().map(|oid| ObjectId { bytes: oid.as_bytes().try_into().unwrap() })
}

/// `Signature::now` for the given identity, by the time that the signature
/// carries: seconds since the epoch and the offset of the local time zone
/// in minutes. Nothing is claimed of the outcome: it is the time.
#[verifier::external_body]
pub(crate) fn signature_time_now(name: &str, email: &str) -> (r: Result<(i64, i32), git2::Error>) {
    let signature = git2::Signature::now(name, email)?;
    Ok((signature.when().seconds(), signature.when().offset_minutes()))
}

/// `Repository::commit` on a signature made by `Signature::new`, a tree
/// found by `Repository::find_tree` and a parent found by
/// `Repository::find_commit`. No reference is updated, the one signature
/// is both author and committer, and there is a single parent. Where the
/// write succeeds, the id is the content address of the commit that holds
/// exactly what was given.
#[verifier::external_body]
pub(crate) fn write_commit(
    repo: &git2::Repository,
    name: &str,
    email: &str,
    seconds: i64,
    offset: i32,
    message: &str,
    tree: &ObjectId,
    parent: &ObjectId,
) -> (r: Result<ObjectId, git2::Error>)
    ensures
        r is Ok ==> r->Ok_0@ == commit_id_of(
            name@,
            email@,
            seconds,
            offset,
            message@,
            tree@,
            seq![parent@],
        ),
{
    let signature = git2::Signature::new(name, email, &git2::Time::new(seconds, offset))?;
    let tree = repo.find_tree(git2::Oid::from_bytes(&tree.bytes)?)?;
    let parent = repo.find_commit(git2::Oid::from_bytes(&parent.bytes)?)?;
    repo.commit(None, &signature, &signature, message, &tree, &[&parent]).map(
        |oid| ObjectId { bytes: oid.as_bytes().try_into().unwrap() },
    )
}

/// `Repository::reference_matching` on what the update names: points the
/// reference at the target if it still points at the expected commit.
/// Nothing is claimed of the outcome.
#[verifier::external_body]
pub(crate) fn advance_reference(repo: &git2::Repository, update: &RefUpdate) -> (r: Result<
    (),
    git2::Error,
>) {
    let target = git2::Oid::from_bytes(&update.target.bytes)?;
    let expected = git2::Oid::from_bytes(&update.expected.bytes)?;
    let name = update.reference.as_str();
    repo.reference_matching(name, target, update.force, expected, update.log_message.as_str()).map(
        |_| (),
    )
}

/// `Error::message`: the store's own words for a failure. Nothing is
/// claimed of the outcome.
#[verifier::external_body]
pub(crate) fn error_text(error: &git2::Error) -> (r: String) {
    error.message().to_owned()
}

/// `Error::code`, tested for `ErrorCode::Modified`: the reference did not
/// hold the expected value. Nothing is claimed of the outcome.
#[verifier::external_body]
pub(crate) fn is_modified(error: &git2::Error) -> (r: bool) {
    error.code() == git2::ErrorCode::Modified
}

/// `Repository::diff_tree_to_tree` with default options on two trees found
/// by `Repository::find_tree`, each delta by the paths of its two sides;
/// `None` for `old` stands for the empty tree. Nothing is claimed of the
/// outcome.
#[verifier::external_body]
pub(crate) fn diff_paths(repo: &git2::Repository, old: &Option<ObjectId>, new: &ObjectId) -> (r:
    Result<Vec<DeltaPaths>, git2::Error>) {
    let old = match old {
        Some(id) => Some(repo.find_tree(git2::Oid::from_bytes(&id.bytes)?)?),
        None => None,
    };
    let new = repo.find_tree(git2::Oid::from_bytes(&new.bytes)?)?;
    let diff = repo.diff_tree_to_tree(old.as_ref(), Some(&new), None)?;
    Ok(
        diff.deltas().map(
            |d|
                DeltaPaths {
                    new_path: d.new_file().path_bytes().map(|p| p.to_vec()),
                    old_path: d.old_file().path_bytes().map(|p| p.to_vec()),
                },
        ).collect(),
    )
}

/// `String::from_utf8`: succeeds exactly on valid UTF-8, and then gives the
/// text that the bytes encode.
#[verifier::external_body]
pub(crate) fn text_from_utf8(bytes: Vec<u8>) -> (r: Option<String>)
    ensures
        r is Some <==> valid_utf8(bytes@),
        r is Some ==> r->Some_0@ == decode_utf8(bytes@),
{
    String::from_utf8(bytes).ok()
}

} // verus!
