//! What holds across the functions of this library, proved once for all
//! inputs.

use crate::blob::{blob_request_model, decode_model, update_model, UpdateBlobRequest};
use crate::branches::BranchLookup;
use crate::common::RepoError;
use crate::history::{
    attribute_over, changed_model, complete_model, credit, step_walk, touches, unknown,
    walk_outcome, walk_result, AttributionModel, VisitModel, WalkRead, WalkStep,
};
use crate::mutate::{
    edit_outcome, levels_maps, levels_model, rebuilt_entries, rebuilt_id, EditAnswers,
    EditReceipt,
};
use crate::object::{
    kind_of_mode, CommitModel, CommitRecord, EntryKind, EntryModel, MODE_FILE, MODE_TREE,
};
use crate::path::{lemma_split_nonempty, split_path, SLASH};
use crate::resolve::{ends_at, lookup, resolve_model, step_model, walk_model, StepModel};
use crate::store::{blob_id_of, entries_map};
use crate::tree::{dir_model, files_model, listed_model, targets_model, tree_request_model};
use vstd::prelude::*;
use vstd::utf8::{
    decode_utf8, decode_utf8_encode_utf8, encode_utf8, encode_utf8_decode_utf8,
    encode_utf8_valid_utf8, valid_utf8,
};

verus! {

/// Looking a name up in a list of entries is looking it up in the map that
/// the list stands for.
pub proof fn lemma_lookup_is_map(entries: Seq<EntryModel>, name: Seq<u8>)
    ensures
        match lookup(entries, name) {
            Some(e) => e.name == name && entries_map(entries).dom().contains(name)
                && entries_map(entries)[name] == (e.id, e.mode),
            None => !entries_map(entries).dom().contains(name),
        },
    decreases entries.len(),
{
    if entries.len() > 0 {
        lemma_lookup_is_map(entries.drop_last(), name);
    }
}

/// A regular file is a blob and a subtree is a tree.
pub proof fn lemma_written_kinds()
    ensures
        kind_of_mode(MODE_FILE) == Some(EntryKind::Blob),
        kind_of_mode(MODE_TREE) == Some(EntryKind::Tree),
{
    assert(0o100644u32 & 0o170000u32 == 0o100000u32) by (bit_vector);
    assert(0o040000u32 & 0o170000u32 == 0o040000u32) by (bit_vector);
}

/// Whether the store hands back, level by level, the trees that an edit
/// wrote: read `j` is a list of entries that stands for the rebuilt tree
/// at level `j`.
pub open spec fn reads_back(
    reads: Seq<Option<Seq<EntryModel>>>,
    levels: Seq<Map<Seq<u8>, (Seq<u8>, u32)>>,
    comps: Seq<Seq<u8>>,
    blob: Seq<u8>,
) -> bool {
    &&& reads.len() == comps.len()
    &&& forall|j: int|
        0 <= j < comps.len() ==> (#[trigger] reads[j]) is Some && entries_map(reads[j]->Some_0)
            == rebuilt_entries(levels, comps, blob, j)
}

proof fn lemma_walk_rebuilt(
    reads: Seq<Option<Seq<EntryModel>>>,
    levels: Seq<Map<Seq<u8>, (Seq<u8>, u32)>>,
    comps: Seq<Seq<u8>>,
    blob: Seq<u8>,
    current: Seq<u8>,
    i: int,
)
    requires
        0 <= i < comps.len(),
        levels.len() == comps.len(),
        forall|j: int| 0 <= j < comps.len() ==> comps[j].len() > 0,
        reads_back(reads, levels, comps, blob),
    ensures
        walk_model(reads.skip(i), current, comps, i) == ends_at(blob, EntryKind::Blob),
    decreases comps.len() - i,
{
    let rest = reads.skip(i);
    assert(rest.len() > 0);
    assert(rest[0] == reads[i]);
    let entries = reads[i]->Some_0;
    lemma_lookup_is_map(entries, comps[i]);
    lemma_written_kinds();
    if i == comps.len() - 1 {
        assert(step_model(entries, comps, i) == StepModel::Found(blob, EntryKind::Blob));
    } else {
        let next = rebuilt_id(levels, comps, blob, i + 1);
        assert(step_model(entries, comps, i) == StepModel::Descend(next));
        lemma_walk_rebuilt(reads, levels, comps, blob, next, i + 1);
        assert(rest.drop_first() =~= reads.skip(i + 1));
    }
}

/// Round trip. Take an edit that succeeded on a path without an empty
/// component, and a store that afterwards hands back the trees that the
/// edit wrote. Then resolving the path from the new root ends at the new
/// blob, and reading the written bytes as text gives the new content.
pub proof fn law_edit_then_read(
    old_levels: Seq<Seq<EntryModel>>,
    path: Seq<u8>,
    text: Seq<char>,
    receipt: EditReceipt,
    reads: Seq<Option<Seq<EntryModel>>>,
)
    requires
        edit_outcome(old_levels, split_path(path), encode_utf8(text), receipt),
        forall|j: int| 0 <= j < split_path(path).len() ==> split_path(path)[j].len() > 0,
        reads_back(reads, levels_maps(old_levels), split_path(path), receipt.blob@),
    ensures
        resolve_model(reads, receipt.tree@, path) == ends_at(receipt.blob@, EntryKind::Blob),
        valid_utf8(encode_utf8(text)),
        decode_utf8(encode_utf8(text)) == text,
{
    let comps = split_path(path);
    lemma_split_nonempty(path);
    assert(path.len() > 0) by {
        if path.len() == 0 {
            assert(comps[0].len() == 0);
        }
    }
    assert(path != seq![SLASH]) by {
        if path == seq![SLASH] {
            assert(path.drop_last() =~= Seq::<u8>::empty());
            assert(path.last() == SLASH);
            assert(split_path(path.drop_last()) =~= seq![Seq::<u8>::empty()]);
            assert(comps[0].len() == 0);
        }
    }
    lemma_walk_rebuilt(reads, levels_maps(old_levels), comps, receipt.blob@, receipt.tree@, 0);
    assert(reads.skip(0) =~= reads);
    encode_utf8_valid_utf8(text);
    encode_utf8_decode_utf8(text);
}

/// Tree sharing. At every level of an edit the new tree holds what the old
/// one held, but for the one entry on the path: every other name is there
/// if and only if it was there before, with the same id and mode.
pub proof fn law_siblings_untouched(
    levels: Seq<Map<Seq<u8>, (Seq<u8>, u32)>>,
    comps: Seq<Seq<u8>>,
    blob: Seq<u8>,
    i: int,
    name: Seq<u8>,
)
    requires
        0 <= i < levels.len(),
        name != comps[i],
    ensures
        rebuilt_entries(levels, comps, blob, i).dom().contains(name) == levels[i].dom().contains(
            name,
        ),
        levels[i].dom().contains(name) ==> rebuilt_entries(levels, comps, blob, i)[name]
            == levels[i][name],
{
}

/// Tree sharing, as a reader sees it. Where the store hands back the tree
/// that an edit wrote at some level, every name but the one on the path is
/// found there exactly as it is found in the old tree: same id, same mode.
pub proof fn law_siblings_read_back(
    old_levels: Seq<Seq<EntryModel>>,
    comps: Seq<Seq<u8>>,
    blob: Seq<u8>,
    i: int,
    name: Seq<u8>,
    read: Seq<EntryModel>,
)
    requires
        0 <= i < old_levels.len(),
        name != comps[i],
        entries_map(read) == rebuilt_entries(levels_maps(old_levels), comps, blob, i),
    ensures
        lookup(read, name) is Some == lookup(old_levels[i], name) is Some,
        lookup(read, name) is Some ==> lookup(read, name)->Some_0.id == lookup(
            old_levels[i],
            name,
        )->Some_0.id && lookup(read, name)->Some_0.mode == lookup(
            old_levels[i],
            name,
        )->Some_0.mode,
{
    lemma_lookup_is_map(read, name);
    lemma_lookup_is_map(old_levels[i], name);
    law_siblings_untouched(levels_maps(old_levels), comps, blob, i, name);
}

/// The attribution of a target is the first commit of the walk that
/// touches it, and there is none if no commit of the walk does.
pub proof fn law_first_touching_commit(visits: Seq<VisitModel>, target: Seq<Seq<u8>>)
    ensures
        match attribute_over(visits, target) {
            Some(a) => exists|k: int|
                0 <= k < visits.len() && #[trigger] touches(visits[k].changes, target) && a
                    == credit(visits[k].commit) && forall|j: int|
                    0 <= j < k ==> !#[trigger] touches(visits[j].changes, target),
            None => forall|j: int|
                0 <= j < visits.len() ==> !#[trigger] touches(visits[j].changes, target),
        },
    decreases visits.len(),
{
    if visits.len() > 0 {
        let before = visits.drop_last();
        law_first_touching_commit(before, target);
        match attribute_over(before, target) {
            Some(a) => {
                let k = choose|k: int|
                    0 <= k < before.len() && #[trigger] touches(before[k].changes, target) && a
                        == credit(before[k].commit) && forall|j: int|
                        0 <= j < k ==> !#[trigger] touches(before[j].changes, target);
                assert(visits[k] == before[k]);
                assert forall|j: int| 0 <= j < k implies !#[trigger] touches(
                    visits[j].changes,
                    target,
                ) by {
                    assert(visits[j] == before[j]);
                }
            },
            None => {
                assert forall|j: int| 0 <= j < before.len() implies !#[trigger] touches(
                    visits[j].changes,
                    target,
                ) by {
                    assert(visits[j] == before[j]);
                }
                if touches(visits.last().changes, target) {
                    let k = visits.len() - 1;
                    assert(touches(visits[k].changes, target));
                }
            },
        }
    }
}

/// Attribution of an edit. Where the newest commit of a walk changed a
/// path, every entry on that path (the path itself, or a directory above
/// it) is attributed to that commit.
pub proof fn law_edit_is_attributed(
    visits: Seq<VisitModel>,
    edited: Seq<Seq<u8>>,
    target: Seq<Seq<u8>>,
)
    requires
        visits.len() > 0,
        visits[0].changes.contains(edited),
        target.is_prefix_of(edited),
    ensures
        attribute_over(visits, target) == Some(credit(visits[0].commit)),
    decreases visits.len(),
{
    let k = choose|k: int| 0 <= k < visits[0].changes.len() && visits[0].changes[k] == edited;
    assert(target.is_prefix_of(visits[0].changes[k]));
    assert(touches(visits[0].changes, target));
    if visits.len() == 1 {
        assert(visits.drop_last().len() == 0);
        assert(visits.last() == visits[0]);
        assert(attribute_over(visits.drop_last(), target) is None);
    } else {
        assert(visits.drop_last()[0] == visits[0]);
        law_edit_is_attributed(visits.drop_last(), edited, target);
    }
}

/// Whether commit `k` of a walk is reached from the head through first
/// parents alone.
pub open spec fn on_first_parent_line(visits: Seq<VisitModel>, head: CommitModel, k: int) -> bool {
    &&& 0 <= k < visits.len()
    &&& visits[0].commit == head
    &&& forall|j: int|
        0 <= j < k ==> (#[trigger] visits[j]).commit.parents.len() > 0 && visits[j + 1].commit.id
            == visits[j].commit.parents[0]
}

/// First parents only. Every attribution of a finished walk names a commit
/// that touches the target and that is reached from the head through first
/// parents alone; a change that came in through another parent of a merge
/// is never what an entry is attributed to.
pub proof fn law_only_first_parents(
    visits: Seq<VisitModel>,
    head: CommitModel,
    targets: Seq<Seq<Seq<u8>>>,
    found: Seq<AttributionModel>,
    i: int,
)
    requires
        walk_outcome(visits, head, targets, found),
        0 <= i < targets.len(),
    ensures
        exists|k: int|
            #[trigger] on_first_parent_line(visits, head, k) && touches(
                visits[k].changes,
                targets[i],
            ) && found[i] == credit(visits[k].commit),
{
    law_first_touching_commit(visits, targets[i]);
    assert(attribute_over(visits, targets[i]) == Some(found[i]));
    let k = choose|k: int|
        0 <= k < visits.len() && #[trigger] touches(visits[k].changes, targets[i]) && found[i]
            == credit(visits[k].commit) && forall|j: int|
            0 <= j < k ==> !#[trigger] touches(visits[j].changes, targets[i]);
    assert(on_first_parent_line(visits, head, k));
}

/// What the store hands back at read `i`; a read that never came counts
/// as one that failed.
pub open spec fn read_at(reads: Seq<Option<Seq<EntryModel>>>, i: int) -> Option<Seq<EntryModel>> {
    if 0 <= i < reads.len() {
        reads[i]
    } else {
        None
    }
}

proof fn lemma_walk_repeats(
    first: Seq<Option<Seq<EntryModel>>>,
    second: Seq<Option<Seq<EntryModel>>>,
    current: Seq<u8>,
    comps: Seq<Seq<u8>>,
    i: int,
)
    requires
        0 <= i,
        forall|m: int| 0 <= m < comps.len() - i ==> read_at(first, m) == read_at(second, m),
    ensures
        walk_model(first, current, comps, i) == walk_model(second, current, comps, i),
    decreases comps.len() - i,
{
    if i < comps.len() && comps[i].len() > 0 {
        assert(read_at(first, 0) == read_at(second, 0));
        if first.len() > 0 && second.len() > 0 {
            match first[0] {
                Some(entries) => match step_model(entries, comps, i) {
                    StepModel::Descend(next) => {
                        let a = first.drop_first();
                        let b = second.drop_first();
                        assert forall|m: int| 0 <= m < comps.len() - (i + 1) implies read_at(a, m)
                            == read_at(b, m) by {
                            assert(read_at(first, m + 1) == read_at(second, m + 1));
                        }
                        lemma_walk_repeats(a, b, next, comps, i + 1);
                    },
                    _ => {},
                },
                None => {},
            }
        }
    }
}

/// Idempotent reads. Resolving one path from one root twice gives the same
/// result whenever the store hands back the same trees along the path both
/// times; what else the store holds, or has gained in between, is of no
/// account.
pub proof fn law_reads_repeat(
    first: Seq<Option<Seq<EntryModel>>>,
    second: Seq<Option<Seq<EntryModel>>>,
    root: Seq<u8>,
    path: Seq<u8>,
)
    requires
        forall|j: int|
            0 <= j < split_path(path).len() ==> read_at(first, j) == read_at(second, j),
    ensures
        resolve_model(first, root, path) == resolve_model(second, root, path),
{
    lemma_walk_repeats(first, second, root, split_path(path), 0);
}

/// Round trip, at the request. Take an edit that succeeded on a path
/// without an empty component, and a store that afterwards leads the
/// branch to a commit with the new root tree, hands back the trees that
/// the edit wrote and, for the blob, the bytes that the edit wrote. Then
/// the request for the file gives the new content.
pub proof fn law_edit_then_get(
    old_levels: Seq<Seq<EntryModel>>,
    path: Seq<u8>,
    text: Seq<char>,
    receipt: EditReceipt,
    head: CommitRecord,
    reads: Seq<Option<Seq<EntryModel>>>,
)
    requires
        edit_outcome(old_levels, split_path(path), encode_utf8(text), receipt),
        forall|j: int| 0 <= j < split_path(path).len() ==> split_path(path)[j].len() > 0,
        reads_back(reads, levels_maps(old_levels), split_path(path), receipt.blob@),
        head@.tree == receipt.tree@,
    ensures
        blob_request_model(true, BranchLookup::Head(head), reads, Some(encode_utf8(text)), path)
            == Ok::<Seq<char>, RepoError>(text),
{
    law_edit_then_read(old_levels, path, text, receipt, reads);
}

/// Missing branch. Where the repository opens and the branch has no
/// reference, a listing and a read both give `BranchNotFound`, whatever
/// the path and whatever else the store holds.
pub proof fn law_missing_branch(
    path: Seq<u8>,
    path_reads: Seq<Option<Seq<EntryModel>>>,
    entries: Option<Seq<EntryModel>>,
    walk_reads: Seq<WalkRead>,
    bytes: Option<Seq<u8>>,
)
    ensures
        tree_request_model(true, BranchLookup::NoReference, path_reads, entries, walk_reads, path)
            is Err,
        tree_request_model(
            true,
            BranchLookup::NoReference,
            path_reads,
            entries,
            walk_reads,
            path,
        )->Err_0 == RepoError::BranchNotFound,
        blob_request_model(true, BranchLookup::NoReference, path_reads, bytes, path)
            == Err::<Seq<char>, RepoError>(RepoError::BranchNotFound),
{
}

/// Binary content. Where the path resolves to a blob and the store hands
/// back its bytes, the request gives the text whose encoding is exactly
/// those bytes if they are valid UTF-8, and `NotText` if they are not;
/// nothing is replaced or dropped on the way.
pub proof fn law_text_or_not_text(
    head: CommitRecord,
    path_reads: Seq<Option<Seq<EntryModel>>>,
    id: Seq<u8>,
    bytes: Seq<u8>,
    path: Seq<u8>,
)
    requires
        resolve_model(path_reads, head@.tree, path) == ends_at(id, EntryKind::Blob),
    ensures
        blob_request_model(true, BranchLookup::Head(head), path_reads, Some(bytes), path)
            == decode_model(bytes),
        valid_utf8(bytes) ==> decode_model(bytes) is Ok && encode_utf8(decode_model(bytes)->Ok_0)
            == bytes,
        !valid_utf8(bytes) ==> decode_model(bytes) == Err::<Seq<char>, RepoError>(
            RepoError::NotText,
        ),
{
    if valid_utf8(bytes) {
        decode_utf8_encode_utf8(bytes);
    }
}

/// Idempotent requests. Two requests for one path give the same result
/// whenever the store gives the same answers both times: the same branch
/// head, the same trees along the path, the same bytes, the same entries
/// and the same reads of the walk.
pub proof fn law_requests_repeat(
    opened: bool,
    lookup: BranchLookup,
    first: Seq<Option<Seq<EntryModel>>>,
    second: Seq<Option<Seq<EntryModel>>>,
    bytes: Option<Seq<u8>>,
    entries: Option<Seq<EntryModel>>,
    walk_reads: Seq<WalkRead>,
    path: Seq<u8>,
)
    requires
        forall|j: int|
            0 <= j < split_path(path).len() ==> read_at(first, j) == read_at(second, j),
    ensures
        blob_request_model(opened, lookup, first, bytes, path) == blob_request_model(
            opened,
            lookup,
            second,
            bytes,
            path,
        ),
        tree_request_model(opened, lookup, first, entries, walk_reads, path)
            == tree_request_model(opened, lookup, second, entries, walk_reads, path),
{
    if lookup is Head {
        law_reads_repeat(first, second, lookup->Head_0@.tree, path);
    }
}

/// Loading the levels of a path gives one level for each component.
pub proof fn lemma_levels_length(
    reads: Seq<Option<Seq<EntryModel>>>,
    comps: Seq<Seq<u8>>,
    i: int,
    above: Seq<Seq<EntryModel>>,
)
    requires
        0 <= i < comps.len(),
        levels_model(reads, comps, i, above) is Ok,
    ensures
        levels_model(reads, comps, i, above)->Ok_0.len() == above.len() + comps.len() - i,
    decreases reads.len(),
{
    if reads.len() > 0 && reads[0] is Some && i < comps.len() - 1 {
        let entries = reads[0]->Some_0;
        if step_model(entries, comps, i) is Descend {
            lemma_levels_length(reads.drop_first(), comps, i + 1, above.push(entries));
        }
    }
}

/// Round trip of the two requests. Take a request for an edit that
/// succeeded on a path without an empty component, and a store that
/// afterwards leads the branch to a commit with the new root tree and
/// hands back the trees and the bytes that the edit wrote. Then the
/// request for the file gives the content of the edit.
pub proof fn law_update_then_get(
    answers: EditAnswers,
    path: Seq<char>,
    branch: Seq<char>,
    request: UpdateBlobRequest,
    head: CommitRecord,
    reads: Seq<Option<Seq<EntryModel>>>,
)
    requires
        update_model(true, answers, path, branch, request) is Ok,
        forall|j: int|
            0 <= j < split_path(encode_utf8(path)).len() ==> split_path(encode_utf8(path))[j].len()
                > 0,
        reads_back(
            reads,
            levels_maps(
                levels_model(answers.reads, split_path(encode_utf8(path)), 0, Seq::empty())->Ok_0,
            ),
            split_path(encode_utf8(path)),
            blob_id_of(encode_utf8(request.content@)),
        ),
        head@.tree == rebuilt_id(
            levels_maps(
                levels_model(answers.reads, split_path(encode_utf8(path)), 0, Seq::empty())->Ok_0,
            ),
            split_path(encode_utf8(path)),
            blob_id_of(encode_utf8(request.content@)),
            0,
        ),
    ensures
        blob_request_model(
            true,
            BranchLookup::Head(head),
            reads,
            Some(encode_utf8(request.content@)),
            encode_utf8(path),
        ) == Ok::<Seq<char>, RepoError>(request.content@),
{
    let place = encode_utf8(path);
    let comps = split_path(place);
    let text = request.content@;
    let blob = blob_id_of(encode_utf8(text));
    let loading = levels_model(answers.reads, comps, 0, Seq::empty());
    assert(loading is Ok);
    lemma_split_nonempty(place);
    lemma_levels_length(answers.reads, comps, 0, Seq::empty());
    let levels = levels_maps(loading->Ok_0);
    assert(place.len() > 0) by {
        if place.len() == 0 {
            assert(comps[0].len() == 0);
        }
    }
    assert(place != seq![SLASH]) by {
        if place == seq![SLASH] {
            assert(place.drop_last() =~= Seq::<u8>::empty());
            assert(place.last() == SLASH);
            assert(split_path(place.drop_last()) =~= seq![Seq::<u8>::empty()]);
            assert(comps[0].len() == 0);
        }
    }
    lemma_walk_rebuilt(reads, levels, comps, blob, head@.tree, 0);
    assert(reads.skip(0) =~= reads);
    encode_utf8_valid_utf8(text);
    encode_utf8_decode_utf8(text);
}

/// What an entry has once found, it keeps to the end of the walk.
pub proof fn lemma_walk_keeps(
    reads: Seq<WalkRead>,
    current: CommitModel,
    found: Seq<Option<AttributionModel>>,
    targets: Seq<Seq<Seq<u8>>>,
    i: int,
)
    requires
        0 <= i < found.len(),
        found[i] is Some,
        walk_result(reads, current, found, targets) is Ok,
    ensures
        walk_result(reads, current, found, targets)->Ok_0.len() == found.len(),
        walk_result(reads, current, found, targets)->Ok_0[i] == found[i]->Some_0,
    decreases reads.len(),
{
    if !(complete_model(found) || reads.len() == 0) {
        match step_walk(reads[0], current, found, targets) {
            WalkStep::Done(_) => {},
            WalkStep::Next(next, after) => {
                lemma_walk_keeps(reads.drop_first(), next, after, targets, i);
            },
        }
    }
}

/// Attribution of the two requests. Take a listing that succeeds from a
/// head whose changes, as the store reports them, hold an edited path.
/// Then every entry of the listing that lies on that path is attributed to
/// the head: its line carries the id, the summary and the time of that
/// commit.
pub proof fn law_update_then_list(
    head: CommitRecord,
    path_reads: Seq<Option<Seq<EntryModel>>>,
    entries: Seq<EntryModel>,
    walk_reads: Seq<WalkRead>,
    dir: Seq<u8>,
    edited: Seq<Seq<u8>>,
    i: int,
)
    requires
        tree_request_model(
            true,
            BranchLookup::Head(head),
            path_reads,
            Some(entries),
            walk_reads,
            dir,
        ) is Ok,
        0 <= i < listed_model(entries).len(),
        walk_reads.len() > 0,
        walk_reads[0].deltas is Some,
        changed_model(walk_reads[0].deltas->Some_0).contains(edited),
        targets_model(listed_model(entries), dir_model(dir))[i].is_prefix_of(edited),
    ensures
        walk_result(
            walk_reads,
            head@,
            unknown(listed_model(entries).len()),
            targets_model(listed_model(entries), dir_model(dir)),
        ) is Ok,
        tree_request_model(
            true,
            BranchLookup::Head(head),
            path_reads,
            Some(entries),
            walk_reads,
            dir,
        )->Ok_0 == files_model(
            listed_model(entries),
            walk_result(
                walk_reads,
                head@,
                unknown(listed_model(entries).len()),
                targets_model(listed_model(entries), dir_model(dir)),
            )->Ok_0,
        ),
        walk_result(
            walk_reads,
            head@,
            unknown(listed_model(entries).len()),
            targets_model(listed_model(entries), dir_model(dir)),
        )->Ok_0[i] == credit(head@),
{
    let listed = listed_model(entries);
    let targets = targets_model(listed, dir_model(dir));
    let start = unknown(listed.len());
    let result = walk_result(walk_reads, head@, start, targets);
    assert(result is Ok);
    assert(start[i] is None);
    assert(!complete_model(start));
    let changes = changed_model(walk_reads[0].deltas->Some_0);
    let k = choose|k: int| 0 <= k < changes.len() && changes[k] == edited;
    assert(targets[i].is_prefix_of(changes[k]));
    assert(touches(changes, targets[i]));
    match step_walk(walk_reads[0], head@, start, targets) {
        WalkStep::Done(r) => {
            assert(r == result);
        },
        WalkStep::Next(next, after) => {
            assert(after[i] == Some(credit(head@)));
            lemma_walk_keeps(walk_reads.drop_first(), next, after, targets, i);
        },
    }
}

} // verus!
