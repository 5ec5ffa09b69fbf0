//! The branch mutator: one file edited in place as a new commit. A new blob
//! is written, every tree on the path is rewritten from the leaf up with
//! exactly one entry replaced, a commit with the old head as its only
//! parent is written, and the branch is advanced if it still points at the
//! old head.

use crate::branches::{head_model, resolve_branch, BranchLookup};
use crate::common::RepoError;
use crate::object::{entries_view, EntryModel, ObjectId, MODE_FILE, MODE_TREE};
use crate::path::{comps_view, split, split_path};
use crate::resolve::{resolve_step, step_model, Step, StepModel};
use crate::store::{
    advance_reference, blob_id_of, builder_entries, builder_from, builder_insert, builder_write,
    commit_id_of, entries_map, find_tree, is_modified, signature_time_now, tree_entries,
    tree_id_of, tree_list, write_blob, write_commit,
};
use vstd::prelude::*;
use vstd::utf8::encode_utf8;

verus! {

/// The entries of the new tree at level `i` of an edit: those of the old
/// tree at that level, with the entry for component `i` of the path
/// replaced. At the deepest level the entry names the new blob as a regular
/// file; above it, the rewritten tree one level down.
pub open spec fn rebuilt_entries(
    levels: Seq<Map<Seq<u8>, (Seq<u8>, u32)>>,
    comps: Seq<Seq<u8>>,
    blob: Seq<u8>,
    i: int,
) -> Map<Seq<u8>, (Seq<u8>, u32)>
    decreases levels.len() - i,
{
    if i < 0 || i >= levels.len() {
        Map::empty()
    } else if i == levels.len() - 1 {
        levels[i].insert(comps[i], (blob, MODE_FILE))
    } else {
        levels[i].insert(
            comps[i],
            (tree_id_of(rebuilt_entries(levels, comps, blob, i + 1)), MODE_TREE),
        )
    }
}

/// The id of the new tree at level `i` of an edit.
pub open spec fn rebuilt_id(
    levels: Seq<Map<Seq<u8>, (Seq<u8>, u32)>>,
    comps: Seq<Seq<u8>>,
    blob: Seq<u8>,
    i: int,
) -> Seq<u8> {
    tree_id_of(rebuilt_entries(levels, comps, blob, i))
}

/// The lists of entries of some trees in memory.
pub open spec fn levels_read(trees: Seq<git2::Tree>) -> Seq<Seq<EntryModel>> {
    trees.map_values(|t: git2::Tree| tree_entries(t))
}

/// Lists of entries as the maps that they stand for.
pub open spec fn levels_maps(levels: Seq<Seq<EntryModel>>) -> Seq<Map<Seq<u8>, (Seq<u8>, u32)>> {
    levels.map_values(|l: Seq<EntryModel>| entries_map(l))
}

/// Whether every component of a path but the last names a tree, level by
/// level.
pub open spec fn dirs_resolve(levels: Seq<Seq<EntryModel>>, comps: Seq<Seq<u8>>) -> bool {
    forall|i: int|
        0 <= i < comps.len() - 1 ==> #[trigger] step_model(levels[i], comps, i) is Descend
}

/// What a successful edit wrote.
#[derive(Clone, Copy, Debug)]
pub struct EditReceipt {
    /// The new commit, now the head of the branch.
    pub commit: ObjectId,
    /// The root tree of the new commit.
    pub tree: ObjectId,
    /// The blob that holds the new content.
    pub blob: ObjectId,
    /// The head of the branch before the edit: the only parent of the new
    /// commit.
    pub parent: ObjectId,
}

/// What a successful edit wrote, as a mathematical value.
pub struct ReceiptModel {
    pub commit: Seq<u8>,
    pub tree: Seq<u8>,
    pub blob: Seq<u8>,
    pub parent: Seq<u8>,
}

impl View for EditReceipt {
    type V = ReceiptModel;

    open spec fn view(&self) -> ReceiptModel {
        ReceiptModel {
            commit: self.commit@,
            tree: self.tree@,
            blob: self.blob@,
            parent: self.parent@,
        }
    }
}

/// What an edit states of the trees that it read on the way down: the
/// directories of the path exist, the blob is the content address of the
/// new content, and the new root is the old root with the entries on the
/// path replaced and nothing else.
pub open spec fn edit_outcome(
    levels: Seq<Seq<EntryModel>>,
    comps: Seq<Seq<u8>>,
    content: Seq<u8>,
    receipt: EditReceipt,
) -> bool {
    &&& levels.len() == comps.len()
    &&& dirs_resolve(levels, comps)
    &&& receipt.blob@ == blob_id_of(content)
    &&& receipt.tree@ == rebuilt_id(levels_maps(levels), comps, receipt.blob@, 0)
}

/// An edit with this receipt can be accounted for by some trees read on
/// the way down.
pub open spec fn edit_holds(comps: Seq<Seq<u8>>, content: Seq<u8>, receipt: EditReceipt) -> bool {
    exists|levels: Seq<Seq<EntryModel>>| edit_outcome(levels, comps, content, receipt)
}

/// The commit of a receipt is the one that holds the given identity as
/// author and committer at one time, the given message, the tree of the
/// receipt, and the old head as its only parent.
pub open spec fn commit_holds(
    name: Seq<char>,
    email: Seq<char>,
    message: Seq<char>,
    receipt: EditReceipt,
) -> bool {
    exists|seconds: i64, offset: i32|
        receipt.commit@ == #[trigger] commit_id_of(
            name,
            email,
            seconds,
            offset,
            message,
            receipt.tree@,
            seq![receipt.parent@],
        )
}

/// The error for a branch that could not be advanced: the branch had moved
/// since its head was read, or the update failed for another reason.
pub fn advance_failure(moved: bool) -> (r: RepoError)
    ensures
        r == if moved {
            RepoError::ConcurrentModification
        } else {
            RepoError::RefUpdateFailed
        },
{
    if moved {
        RepoError::ConcurrentModification
    } else {
        RepoError::RefUpdateFailed
    }
}

/// What is asked of the store to move a reference: its full name, the
/// commit it is to point at, the commit it must still point at, whether an
/// existing reference may be overwritten, and the line for the log.
#[derive(Debug)]
pub struct RefUpdate {
    pub reference: String,
    pub target: ObjectId,
    pub expected: ObjectId,
    pub force: bool,
    pub log_message: String,
}

/// The update that advances a branch: `refs/heads/<branch>` goes to
/// `target` if it still points at `expected`. The reference exists, so the
/// update overwrites it.
pub fn branch_update(branch: &str, target: &ObjectId, expected: &ObjectId, log_message: &str) -> (r:
    RefUpdate)
    ensures
        r.reference@ == "refs/heads/"@ + branch@,
        r.target@ == target@,
        r.expected@ == expected@,
        r.force,
        r.log_message@ == log_message@,
{
    RefUpdate {
        reference: branch_ref(branch),
        target: *target,
        expected: *expected,
        force: true,
        log_message: log_message.to_owned(),
    }
}

/// The update that advances a branch to the commit of a receipt: the
/// reference of the branch goes to the new commit if it still points at
/// the head that the edit started from.
pub fn receipt_update(branch: &str, receipt: &EditReceipt, log_message: &str) -> (r: RefUpdate)
    ensures
        r.reference@ == "refs/heads/"@ + branch@,
        r.target@ == receipt.commit@,
        r.expected@ == receipt.parent@,
        r.force,
        r.log_message@ == log_message@,
{
    branch_update(branch, &receipt.commit, &receipt.parent, log_message)
}

/// The result of an advance from what the store said: done, or the error
/// for a branch that had moved (`Some(true)`) or that could not be updated
/// for another reason (`Some(false)`).
pub open spec fn advance_model(failure: Option<bool>) -> Result<(), RepoError> {
    match failure {
        None => Ok(()),
        Some(moved) => Err(
            if moved {
                RepoError::ConcurrentModification
            } else {
                RepoError::RefUpdateFailed
            },
        ),
    }
}

/// The result of an advance from what the store said.
pub fn advance_result(failure: Option<bool>) -> (r: Result<(), RepoError>)
    ensures
        r == advance_model(failure),
{
    match failure {
        None => Ok(()),
        Some(moved) => Err(advance_failure(moved)),
    }
}

/// Hands an update to the store and says how it went: `None` where the
/// reference was moved, else whether the store found it modified.
fn try_update(repo: &git2::Repository, update: &RefUpdate) -> (r: Option<bool>) {
    match advance_reference(repo, update) {
        Ok(_) => None,
        Err(e) => Some(is_modified(&e)),
    }
}

/// Hands an update to the store; the result is `advance_model` of what the
/// store said.
fn apply_update(repo: &git2::Repository, update: &RefUpdate) -> (r: Result<(), RepoError>)
    ensures
        exists|failure: Option<bool>| r == #[trigger] advance_model(failure),
{
    let failure = try_update(repo, update);
    let r = advance_result(failure);
    assert(r == advance_model(failure));
    r
}

/// Points a branch at `target` if it still points at `expected`: a
/// compare-and-swap on the branch pointer. A branch that has moved in the
/// meantime stays where it is and the result is `ConcurrentModification`.
///
/// What the store is asked is `branch_update` of the arguments; the result
/// is `advance_result` of what it said.
pub fn advance_branch(
    repo: &git2::Repository,
    branch: &str,
    target: &ObjectId,
    expected: &ObjectId,
    log_message: &str,
) -> (r: Result<(), RepoError>)
    ensures
        r is Err ==> r->Err_0 == RepoError::ConcurrentModification || r->Err_0
            == RepoError::RefUpdateFailed,
{
    let update = branch_update(branch, target, expected, log_message);
    apply_update(repo, &update)
}

/// The name of the reference behind a branch.
pub fn branch_ref(branch: &str) -> (r: String)
    ensures
        r@ == "refs/heads/"@ + branch@,
{
    let mut name = "refs/heads/".to_owned();
    name.append(branch);
    name
}

/// The trees at each level of a path, over what the store hands back, one
/// read per level from level `i` on (`None` for a tree that cannot be
/// read): every component but the last must name a tree in the level
/// above it. `above` holds the levels before `i`.
pub open spec fn levels_model(
    reads: Seq<Option<Seq<EntryModel>>>,
    comps: Seq<Seq<u8>>,
    i: int,
    above: Seq<Seq<EntryModel>>,
) -> Result<Seq<Seq<EntryModel>>, RepoError>
    decreases reads.len(),
{
    if reads.len() == 0 {
        Err(RepoError::CorruptHistory)
    } else {
        match reads[0] {
            None => Err(RepoError::CorruptHistory),
            Some(entries) => if i >= comps.len() - 1 {
                Ok(above.push(entries))
            } else {
                match step_model(entries, comps, i) {
                    StepModel::Descend(_) => levels_model(
                        reads.drop_first(),
                        comps,
                        i + 1,
                        above.push(entries),
                    ),
                    StepModel::Fail(e) => Err(e),
                    StepModel::Found(_, _) => Err(RepoError::WrongKind),
                }
            },
        }
    }
}

/// The levels that were loaded, as a mathematical value.
pub open spec fn levels_result_view(r: Result<Vec<git2::Tree>, RepoError>) -> Result<
    Seq<Seq<EntryModel>>,
    RepoError,
> {
    match r {
        Ok(trees) => Ok(levels_read(trees@)),
        Err(e) => Err(e),
    }
}

/// A result is that of loading the levels of a path for some answers of
/// the store.
pub open spec fn levels_hold(
    comps: Seq<Seq<u8>>,
    outcome: Result<Seq<Seq<EntryModel>>, RepoError>,
) -> bool {
    exists|reads: Seq<Option<Seq<EntryModel>>>|
        outcome == #[trigger] levels_model(reads, comps, 0, Seq::empty())
}

/// The loading over `consumed` has come to level `i` with the levels
/// `above`: whatever reads follow, the results agree.
pub open spec fn loaded(
    consumed: Seq<Option<Seq<EntryModel>>>,
    comps: Seq<Seq<u8>>,
    i: int,
    above: Seq<Seq<EntryModel>>,
) -> bool {
    forall|rest: Seq<Option<Seq<EntryModel>>>|
        #[trigger] levels_model(consumed + rest, comps, 0, Seq::empty()) == levels_model(
            rest,
            comps,
            i,
            above,
        )
}

proof fn lemma_load_start(comps: Seq<Seq<u8>>)
    ensures
        loaded(Seq::empty(), comps, 0, Seq::empty()),
{
    assert forall|rest: Seq<Option<Seq<EntryModel>>>| #[trigger] levels_model(
        Seq::<Option<Seq<EntryModel>>>::empty() + rest,
        comps,
        0,
        Seq::empty(),
    ) == levels_model(rest, comps, 0, Seq::empty()) by {
        assert(Seq::<Option<Seq<EntryModel>>>::empty() + rest =~= rest);
    }
}

proof fn lemma_load_last(
    consumed: Seq<Option<Seq<EntryModel>>>,
    read: Option<Seq<EntryModel>>,
    comps: Seq<Seq<u8>>,
    i: int,
    above: Seq<Seq<EntryModel>>,
)
    requires
        loaded(consumed, comps, i, above),
    ensures
        levels_model(consumed.push(read), comps, 0, Seq::empty()) == levels_model(
            seq![read],
            comps,
            i,
            above,
        ),
{
    assert(consumed.push(read) =~= consumed + seq![read]);
    assert(levels_model(consumed + seq![read], comps, 0, Seq::empty()) == levels_model(
        seq![read],
        comps,
        i,
        above,
    ));
}

proof fn lemma_load_next(
    consumed: Seq<Option<Seq<EntryModel>>>,
    entries: Seq<EntryModel>,
    comps: Seq<Seq<u8>>,
    i: int,
    above: Seq<Seq<EntryModel>>,
)
    requires
        loaded(consumed, comps, i, above),
        i < comps.len() - 1,
        step_model(entries, comps, i) is Descend,
    ensures
        loaded(consumed.push(Some(entries)), comps, i + 1, above.push(entries)),
{
    let read = Some(entries);
    assert forall|rest: Seq<Option<Seq<EntryModel>>>| #[trigger] levels_model(
        consumed.push(read) + rest,
        comps,
        0,
        Seq::empty(),
    ) == levels_model(rest, comps, i + 1, above.push(entries)) by {
        let longer = seq![read] + rest;
        assert(consumed.push(read) + rest =~= consumed + longer);
        assert(levels_model(consumed + longer, comps, 0, Seq::empty()) == levels_model(
            longer,
            comps,
            i,
            above,
        ));
        assert(longer[0] == read);
        assert(longer.drop_first() =~= rest);
    }
}

/// Loads the tree at each level of a path: the root, then the tree that
/// each component but the last names in the one before. A directory that
/// does not exist is not created. The result is `levels_model` of what the
/// store handed back.
fn load_levels<'r>(repo: &'r git2::Repository, root: &ObjectId, comps: &Vec<Vec<u8>>) -> (r:
    Result<Vec<git2::Tree<'r>>, RepoError>)
    requires
        comps.len() >= 1,
    ensures
        levels_hold(comps_view(comps@), levels_result_view(r)),
        match r {
            Ok(trees) => trees.len() == comps.len() && dirs_resolve(
                levels_read(trees@),
                comps_view(comps@),
            ),
            Err(e) => e == RepoError::CorruptHistory || e == RepoError::PathNotFound || e
                == RepoError::WrongKind,
        },
{
    let ghost names = comps_view(comps@);
    let mut trees: Vec<git2::Tree<'r>> = Vec::new();
    let mut next: ObjectId = *root;
    let mut i: usize = 0;
    let ghost mut consumed: Seq<Option<Seq<EntryModel>>> = Seq::empty();
    proof {
        lemma_load_start(names);
        assert(levels_read(trees@) =~= Seq::<Seq<EntryModel>>::empty());
    }
    while i < comps.len()
        invariant
            comps.len() >= 1,
            i < comps.len(),
            trees.len() == i,
            names == comps_view(comps@),
            loaded(consumed, names, i as int, levels_read(trees@)),
            forall|j: int|
                0 <= j < i ==> #[trigger] step_model(levels_read(trees@)[j], names, j) is Descend,
        decreases comps.len() - i,
    {
        let ghost above = levels_read(trees@);
        let ghost reads = consumed;
        let tree = match find_tree(repo, &next) {
            Ok(t) => t,
            Err(_) => {
                proof {
                    lemma_load_last(reads, None, names, i as int, above);
                    assert(levels_model(seq![None], names, i as int, above) == Err::<
                        Seq<Seq<EntryModel>>,
                        RepoError,
                    >(RepoError::CorruptHistory));
                }
                return Err(RepoError::CorruptHistory);
            },
        };
        let entries = tree_list(&tree);
        let ghost level = entries_view(entries@);
        let ghost read = Some(level);
        proof {
            lemma_load_last(reads, read, names, i as int, above);
            assert(seq![read][0] == read);
        }
        if i + 1 == comps.len() {
            trees.push(tree);
            proof {
                assert(levels_read(trees@) =~= above.push(level));
                assert forall|j: int| 0 <= j < comps.len() - 1 implies #[trigger] step_model(
                    levels_read(trees@)[j],
                    names,
                    j,
                ) is Descend by {
                    assert(levels_read(trees@)[j] == above[j]);
                }
            }
            return Ok(trees);
        }
        match resolve_step(&entries, comps, i) {
            Step::Descend(id) => {
                next = id;
            },
            Step::Fail(e) => {
                return Err(e);
            },
            Step::Found(_, _) => {
                return Err(RepoError::WrongKind);
            },
        }
        trees.push(tree);
        proof {
            assert(levels_read(trees@) =~= above.push(level));
            lemma_load_next(reads, level, names, i as int, above);
            consumed = reads.push(read);
            assert forall|j: int| 0 <= j < i + 1 implies #[trigger] step_model(
                levels_read(trees@)[j],
                names,
                j,
            ) is Descend by {
                if j < i {
                    assert(levels_read(trees@)[j] == above[j]);
                }
            }
        }
        i += 1;
    }
    Err(RepoError::PathNotFound)
}

/// Rewrites the trees of a path from the deepest level up to the root.
/// Each new tree is written from the old one with a single entry replaced,
/// so every sibling keeps its id and nothing is copied.
fn rebuild(
    repo: &git2::Repository,
    trees: &Vec<git2::Tree>,
    comps: &Vec<Vec<u8>>,
    blob: &ObjectId,
) -> (r: Result<ObjectId, RepoError>)
    requires
        comps.len() >= 1,
        trees.len() == comps.len(),
    ensures
        match r {
            Ok(id) => id@ == rebuilt_id(
                levels_maps(levels_read(trees@)),
                comps_view(comps@),
                blob@,
                0,
            ),
            Err(e) => e == RepoError::WriteFailed,
        },
{
    let ghost levels = levels_maps(levels_read(trees@));
    let ghost names = comps_view(comps@);
    let n = comps.len();
    let mut child: ObjectId = *blob;
    let mut mode: u32 = MODE_FILE;
    let mut i: usize = n;
    while i > 0
        invariant
            i <= n,
            n == comps.len(),
            trees.len() == n,
            levels == levels_maps(levels_read(trees@)),
            names == comps_view(comps@),
            i == n ==> child@ == blob@ && mode == MODE_FILE,
            i < n ==> child@ == rebuilt_id(levels, names, blob@, i as int) && mode == MODE_TREE,
        decreases i,
    {
        i -= 1;
        let mut builder = match builder_from(repo, &trees[i]) {
            Ok(b) => b,
            Err(_) => {
                return Err(RepoError::WriteFailed);
            },
        };
        assert(builder_entries(builder) == levels[i as int]);
        match builder_insert(&mut builder, &comps[i], &child, mode) {
            Ok(_) => {},
            Err(_) => {
                return Err(RepoError::WriteFailed);
            },
        }
        assert(builder_entries(builder) =~= rebuilt_entries(levels, names, blob@, i as int));
        child =
        match builder_write(&builder) {
            Ok(id) => id,
            Err(_) => {
                return Err(RepoError::WriteFailed);
            },
        };
        mode = MODE_TREE;
    }
    Ok(child)
}

/// What the store answers in the course of an edit.
pub struct EditAnswers {
    /// What following the branch came to.
    pub lookup: BranchLookup,
    /// Whether the blob was written.
    pub blob_written: bool,
    /// The trees along the path, one read per level.
    pub reads: Seq<Option<Seq<EntryModel>>>,
    /// Whether every tree was written.
    pub trees_written: bool,
    /// The time of the signature: seconds and offset, if it could be made.
    pub time: Option<(i64, i32)>,
    /// Whether the commit was written.
    pub commit_written: bool,
    /// How the advance of the branch failed, if it did: `Some(true)` where
    /// the branch had moved.
    pub advance: Option<bool>,
}

/// The receipt that an edit with these answers gives.
pub open spec fn receipt_model(
    answers: EditAnswers,
    levels: Seq<Seq<EntryModel>>,
    head: Seq<u8>,
    path: Seq<u8>,
    content: Seq<u8>,
    message: Seq<char>,
    name: Seq<char>,
    email: Seq<char>,
) -> ReceiptModel {
    let blob = blob_id_of(content);
    let tree = rebuilt_id(levels_maps(levels), split_path(path), blob, 0);
    ReceiptModel {
        commit: commit_id_of(
            name,
            email,
            answers.time->Some_0.0,
            answers.time->Some_0.1,
            message,
            tree,
            seq![head],
        ),
        tree,
        blob,
        parent: head,
    }
}

/// An edit over what the store answers, step by step: the head of the
/// branch is looked up, the blob written, the trees along the path loaded
/// and rewritten, the commit written with the old head as its only parent,
/// and the branch advanced from the old head to it. The first step that
/// fails gives the error: that of the lookup or of the loading,
/// `WriteFailed` for a write, and that of the advance.
pub open spec fn edit_model(
    answers: EditAnswers,
    path: Seq<u8>,
    content: Seq<u8>,
    message: Seq<char>,
    name: Seq<char>,
    email: Seq<char>,
) -> Result<ReceiptModel, RepoError> {
    match head_model(answers.lookup) {
        Err(e) => Err(e),
        Ok(head) => if !answers.blob_written {
            Err(RepoError::WriteFailed)
        } else {
            match levels_model(answers.reads, split_path(path), 0, Seq::empty()) {
                Err(e) => Err(e),
                Ok(levels) => if !answers.trees_written || answers.time is None
                    || !answers.commit_written {
                    Err(RepoError::WriteFailed)
                } else {
                    match advance_model(answers.advance) {
                        Err(e) => Err(e),
                        Ok(_) => Ok(
                            receipt_model(
                                answers,
                                levels,
                                head@.id,
                                path,
                                content,
                                message,
                                name,
                                email,
                            ),
                        ),
                    }
                },
            }
        },
    }
}

/// A receipt or an error, as a mathematical value.
pub open spec fn receipt_view(r: Result<EditReceipt, RepoError>) -> Result<
    ReceiptModel,
    RepoError,
> {
    match r {
        Ok(receipt) => Ok(receipt@),
        Err(e) => Err(e),
    }
}

/// A result is that of an edit for some answers of the store.
pub open spec fn edit_answers_hold(
    path: Seq<u8>,
    content: Seq<u8>,
    message: Seq<char>,
    name: Seq<char>,
    email: Seq<char>,
    outcome: Result<ReceiptModel, RepoError>,
) -> bool {
    exists|answers: EditAnswers|
        outcome == #[trigger] edit_model(answers, path, content, message, name, email)
}

/// Commits new content for one file of a branch and advances the branch.
///
/// The branch is advanced only if it still points at the head that was
/// read; otherwise the edit fails with `ConcurrentModification` and the
/// objects written so far stay in the store, unreferenced.
///
/// The result is `edit_model` of what the store answered. On success the
/// receipt is also what `edit_outcome` states of the trees that the store
/// handed back on the way down, and its commit is the one that
/// `commit_holds` describes.
pub fn commit_edit(
    repo: &git2::Repository,
    branch: &str,
    path: &str,
    content: &str,
    message: &str,
    name: &str,
    email: &str,
) -> (r: Result<EditReceipt, RepoError>)
    ensures
        edit_answers_hold(
            encode_utf8(path@),
            encode_utf8(content@),
            message@,
            name@,
            email@,
            receipt_view(r),
        ),
        r is Ok ==> edit_holds(split_path(encode_utf8(path@)), encode_utf8(content@), r->Ok_0),
        r is Ok ==> commit_holds(name@, email@, message@, r->Ok_0),
        r is Err ==> r->Err_0 != RepoError::RepositoryUnavailable && r->Err_0 != RepoError::NotText
            && r->Err_0 != RepoError::AttributionFailure,
{
    let ghost place = encode_utf8(path@);
    let ghost bytes = encode_utf8(content@);
    let ghost names = split_path(place);
    let looked = resolve_branch(repo, branch);
    let ghost lookup = choose|lookup: BranchLookup| looked == head_model(lookup);
    let ghost mut answers = EditAnswers {
        lookup,
        blob_written: false,
        reads: Seq::empty(),
        trees_written: false,
        time: None,
        commit_written: false,
        advance: None,
    };
    let head = match looked {
        Ok(head) => head,
        Err(e) => {
            assert(receipt_view(Err(e)) == edit_model(
                answers,
                place,
                bytes,
                message@,
                name@,
                email@,
            ));
            return Err(e);
        },
    };
    let blob = match write_blob(repo, content.as_bytes()) {
        Ok(id) => id,
        Err(_) => {
            assert(receipt_view(Err(RepoError::WriteFailed)) == edit_model(
                answers,
                place,
                bytes,
                message@,
                name@,
                email@,
            ));
            return Err(RepoError::WriteFailed);
        },
    };
    let comps = split(path.as_bytes());
    let loading = load_levels(repo, &head.tree, &comps);
    let ghost reads = choose|reads: Seq<Option<Seq<EntryModel>>>|
        levels_result_view(loading) == #[trigger] levels_model(reads, names, 0, Seq::empty());
    proof {
        answers = EditAnswers { blob_written: true, reads, ..answers };
    }
    let trees = match loading {
        Ok(t) => t,
        Err(e) => {
            assert(receipt_view(Err(e)) == edit_model(
                answers,
                place,
                bytes,
                message@,
                name@,
                email@,
            ));
            return Err(e);
        },
    };
    let ghost read = levels_read(trees@);
    let root = match rebuild(repo, &trees, &comps, &blob) {
        Ok(id) => id,
        Err(e) => {
            assert(receipt_view(Err(e)) == edit_model(
                answers,
                place,
                bytes,
                message@,
                name@,
                email@,
            ));
            return Err(e);
        },
    };
    let (seconds, offset) = match signature_time_now(name, email) {
        Ok(when) => when,
        Err(_) => {
            proof {
                answers = EditAnswers { trees_written: true, ..answers };
            }
            assert(receipt_view(Err(RepoError::WriteFailed)) == edit_model(
                answers,
                place,
                bytes,
                message@,
                name@,
                email@,
            ));
            return Err(RepoError::WriteFailed);
        },
    };
    proof {
        answers = EditAnswers { trees_written: true, time: Some((seconds, offset)), ..answers };
    }
    let commit = match write_commit(repo, name, email, seconds, offset, message, &root, &head.id) {
        Ok(id) => id,
        Err(_) => {
            assert(receipt_view(Err(RepoError::WriteFailed)) == edit_model(
                answers,
                place,
                bytes,
                message@,
                name@,
                email@,
            ));
            return Err(RepoError::WriteFailed);
        },
    };
    let receipt = EditReceipt { commit, tree: root, blob, parent: head.id };
    let update = receipt_update(branch, &receipt, message);
    let advanced = apply_update(repo, &update);
    let ghost failure = choose|failure: Option<bool>| advanced == #[trigger] advance_model(failure);
    proof {
        answers = EditAnswers { commit_written: true, advance: failure, ..answers };
    }
    match advanced {
        Ok(_) => {
            proof {
                assert(edit_outcome(read, names, bytes, receipt));
                assert(edit_holds(names, bytes, receipt));
                assert(receipt.commit@ == commit_id_of(
                    name@,
                    email@,
                    seconds,
                    offset,
                    message@,
                    receipt.tree@,
                    seq![receipt.parent@],
                ));
                assert(receipt@ == receipt_model(
                    answers,
                    read,
                    head@.id,
                    place,
                    bytes,
                    message@,
                    name@,
                    email@,
                ));
                assert(receipt_view(Ok(receipt)) == edit_model(
                    answers,
                    place,
                    bytes,
                    message@,
                    name@,
                    email@,
                ));
            }
            Ok(receipt)
        },
        Err(e) => {
            assert(receipt_view(Err(e)) == edit_model(
                answers,
                place,
                bytes,
                message@,
                name@,
                email@,
            ));
            Err(e)
        },
    }
}

} // verus!
