//! The path resolver: from a root tree and a slash-separated path down to
//! the blob or tree that the path names, one component at a time.

use crate::common::RepoError;
use crate::object::{entries_view, kind_of_mode, EntryKind, EntryModel, ObjectId, TreeEntry};
use crate::path::{bytes_equal, comps_view, split, split_path, SLASH};
use crate::store::{find_tree, tree_list};
use vstd::prelude::*;

verus! {

/// The entry of a list that has the given name; where the name occurs
/// twice, the later entry.
pub open spec fn lookup(entries: Seq<EntryModel>, name: Seq<u8>) -> Option<EntryModel>
    decreases entries.len(),
{
    if entries.len() == 0 {
        None
    } else if entries.last().name == name {
        Some(entries.last())
    } else {
        lookup(entries.drop_last(), name)
    }
}

/// Looks an entry up by exact name match.
pub fn find_entry(entries: &Vec<TreeEntry>, name: &Vec<u8>) -> (r: Option<usize>)
    ensures
        match r {
            Some(i) => i < entries.len() && lookup(entries_view(entries@), name@) == Some(
                entries[i as int]@,
            ),
            None => lookup(entries_view(entries@), name@) is None,
        },
{
    let mut i: usize = entries.len();
    assert(entries_view(entries@).take(i as int) =~= entries_view(entries@));
    while i > 0
        invariant
            i <= entries.len(),
            lookup(entries_view(entries@), name@) == lookup(
                entries_view(entries@).take(i as int),
                name@,
            ),
        decreases i,
    {
        let ghost prefix = entries_view(entries@).take(i as int);
        assert(prefix.last() == entries[i - 1]@);
        assert(prefix.drop_last() =~= entries_view(entries@).take(i - 1));
        if bytes_equal(&entries[i - 1].name, name) {
            return Some(i - 1);
        }
        i -= 1;
    }
    None
}

/// What one level of the descent decides, as a mathematical value.
pub enum StepModel {
    /// The path ends here, at this object.
    Found(Seq<u8>, EntryKind),
    /// The path goes on inside this tree.
    Descend(Seq<u8>),
    Fail(RepoError),
}

/// What one level of the descent decides.
#[derive(Debug)]
pub enum Step {
    Found(ObjectId, EntryKind),
    Descend(ObjectId),
    Fail(RepoError),
}

impl View for Step {
    type V = StepModel;

    open spec fn view(&self) -> StepModel {
        match *self {
            Step::Found(id, kind) => StepModel::Found(id@, kind),
            Step::Descend(id) => StepModel::Descend(id@),
            Step::Fail(e) => StepModel::Fail(e),
        }
    }
}

/// The decision at component `i` of a path, given the entries of the tree
/// reached so far: the component must name an entry; before the last
/// component the entry must be a tree; at the last component it is the
/// result.
pub open spec fn step_model(entries: Seq<EntryModel>, comps: Seq<Seq<u8>>, i: int) -> StepModel {
    match lookup(entries, comps[i]) {
        None => StepModel::Fail(RepoError::PathNotFound),
        Some(e) => if i == comps.len() - 1 {
            match kind_of_mode(e.mode) {
                Some(kind) => StepModel::Found(e.id, kind),
                None => StepModel::Fail(RepoError::WrongKind),
            }
        } else if kind_of_mode(e.mode) == Some(EntryKind::Tree) {
            StepModel::Descend(e.id)
        } else {
            StepModel::Fail(RepoError::WrongKind)
        },
    }
}

/// Decides one level of the descent.
pub fn resolve_step(entries: &Vec<TreeEntry>, comps: &Vec<Vec<u8>>, i: usize) -> (r: Step)
    requires
        i < comps.len(),
    ensures
        r@ == step_model(entries_view(entries@), comps_view(comps@), i as int),
        r is Descend ==> i + 1 < comps.len(),
{
    match find_entry(entries, &comps[i]) {
        None => Step::Fail(RepoError::PathNotFound),
        Some(k) => {
            let kind = entries[k].kind();
            if i + 1 == comps.len() {
                match kind {
                    Some(kind) => Step::Found(entries[k].id, kind),
                    None => Step::Fail(RepoError::WrongKind),
                }
            } else {
                match kind {
                    Some(EntryKind::Tree) => Step::Descend(entries[k].id),
                    _ => Step::Fail(RepoError::WrongKind),
                }
            }
        },
    }
}

/// The descent from component `i` on, over the trees that the store hands
/// back, one read per level (`None` for a tree that cannot be read).
///
/// An empty component names nothing. The one exception is a single trailing
/// slash, which stands for the tree reached before it.
pub open spec fn walk_model(
    reads: Seq<Option<Seq<EntryModel>>>,
    current: Seq<u8>,
    comps: Seq<Seq<u8>>,
    i: int,
) -> Result<(Seq<u8>, EntryKind), RepoError>
    decreases comps.len() - i,
{
    if i < 0 || i >= comps.len() {
        Err(RepoError::PathNotFound)
    } else if comps[i].len() == 0 {
        if i == comps.len() - 1 && i > 0 {
            Ok((current, EntryKind::Tree))
        } else {
            Err(RepoError::PathNotFound)
        }
    } else if reads.len() == 0 {
        Err(RepoError::CorruptHistory)
    } else {
        match reads[0] {
            None => Err(RepoError::CorruptHistory),
            Some(entries) => match step_model(entries, comps, i) {
                StepModel::Found(id, kind) => Ok((id, kind)),
                StepModel::Fail(e) => Err(e),
                StepModel::Descend(next) => walk_model(reads.drop_first(), next, comps, i + 1),
            },
        }
    }
}

/// What a path resolves to from a root tree: the root itself for the empty
/// path and for `/`, else the end of the descent along its components.
pub open spec fn resolve_model(
    reads: Seq<Option<Seq<EntryModel>>>,
    root: Seq<u8>,
    path: Seq<u8>,
) -> Result<(Seq<u8>, EntryKind), RepoError> {
    if path.len() == 0 || path == seq![SLASH] {
        Ok((root, EntryKind::Tree))
    } else {
        walk_model(reads, root, split_path(path), 0)
    }
}

/// A resolution that ends at this object.
pub open spec fn ends_at(id: Seq<u8>, kind: EntryKind) -> Result<(Seq<u8>, EntryKind), RepoError> {
    Ok((id, kind))
}

/// The result of a resolution as a mathematical value.
pub open spec fn resolved_view(r: Result<(ObjectId, EntryKind), RepoError>) -> Result<
    (Seq<u8>, EntryKind),
    RepoError,
> {
    match r {
        Ok((id, kind)) => Ok((id@, kind)),
        Err(e) => Err(e),
    }
}

/// The tree that a resolution ends at: a path that names a file names no
/// directory.
pub open spec fn directory_model(resolved: Result<(Seq<u8>, EntryKind), RepoError>) -> Result<
    Seq<u8>,
    RepoError,
> {
    match resolved {
        Ok((id, EntryKind::Tree)) => Ok(id),
        Ok((_, EntryKind::Blob)) => Err(RepoError::WrongKind),
        Err(e) => Err(e),
    }
}

/// The blob that a resolution ends at: a path that names a directory
/// names no file.
pub open spec fn blob_model(resolved: Result<(Seq<u8>, EntryKind), RepoError>) -> Result<
    Seq<u8>,
    RepoError,
> {
    match resolved {
        Ok((id, EntryKind::Blob)) => Ok(id),
        Ok((_, EntryKind::Tree)) => Err(RepoError::WrongKind),
        Err(e) => Err(e),
    }
}

/// An id or an error, as a mathematical value.
pub open spec fn id_view(r: Result<ObjectId, RepoError>) -> Result<Seq<u8>, RepoError> {
    match r {
        Ok(id) => Ok(id@),
        Err(e) => Err(e),
    }
}

/// The tree that a resolution ends at, or `WrongKind` where it ends at a
/// file.
pub fn directory_of(resolved: Result<(ObjectId, EntryKind), RepoError>) -> (r: Result<
    ObjectId,
    RepoError,
>)
    ensures
        id_view(r) == directory_model(resolved_view(resolved)),
{
    match resolved {
        Ok((id, EntryKind::Tree)) => Ok(id),
        Ok((_, EntryKind::Blob)) => Err(RepoError::WrongKind),
        Err(e) => Err(e),
    }
}

/// The blob that a resolution ends at, or `WrongKind` where it ends at a
/// directory.
pub fn blob_of(resolved: Result<(ObjectId, EntryKind), RepoError>) -> (r: Result<
    ObjectId,
    RepoError,
>)
    ensures
        id_view(r) == blob_model(resolved_view(resolved)),
{
    match resolved {
        Ok((id, EntryKind::Blob)) => Ok(id),
        Ok((_, EntryKind::Tree)) => Err(RepoError::WrongKind),
        Err(e) => Err(e),
    }
}

fn walk(repo: &git2::Repository, current: ObjectId, comps: &Vec<Vec<u8>>, i: usize) -> (out: (
    Result<(ObjectId, EntryKind), RepoError>,
    Ghost<Seq<Option<Seq<EntryModel>>>>,
))
    requires
        i < comps.len(),
    ensures
        resolved_view(out.0) == walk_model(out.1@, current@, comps_view(comps@), i as int),
        out.0 is Err ==> out.0->Err_0 == RepoError::PathNotFound || out.0->Err_0
            == RepoError::WrongKind || out.0->Err_0 == RepoError::CorruptHistory,
    decreases comps.len() - i,
{
    if comps[i].len() == 0 {
        let ghost reads = Seq::empty();
        if i + 1 == comps.len() && i > 0 {
            (Ok((current, EntryKind::Tree)), Ghost(reads))
        } else {
            (Err(RepoError::PathNotFound), Ghost(reads))
        }
    } else {
        match find_tree(repo, &current) {
            Err(_) => {
                let ghost reads = seq![None];
                (Err(RepoError::CorruptHistory), Ghost(reads))
            },
            Ok(tree) => {
                let entries = tree_list(&tree);
                let ghost read = Some(entries_view(entries@));
                match resolve_step(&entries, comps, i) {
                    Step::Found(id, kind) => {
                        let ghost reads = seq![read];
                        (Ok((id, kind)), Ghost(reads))
                    },
                    Step::Fail(e) => {
                        let ghost reads = seq![read];
                        (Err(e), Ghost(reads))
                    },
                    Step::Descend(next) => {
                        let (r, Ghost(rest)) = walk(repo, next, comps, i + 1);
                        let ghost reads = seq![read] + rest;
                        assert(reads.drop_first() =~= rest);
                        (r, Ghost(reads))
                    },
                }
            },
        }
    }
}

/// Resolves a path from a root tree to the object that it names.
///
/// The result is what the descent gives on the trees that the store hands
/// back along the way; for the empty path and for `/` it is the root tree,
/// whatever the store holds.
pub fn resolve_path(repo: &git2::Repository, root: &ObjectId, path: &[u8]) -> (r: Result<
    (ObjectId, EntryKind),
    RepoError,
>)
    ensures
        exists|reads: Seq<Option<Seq<EntryModel>>>|
            resolved_view(r) == resolve_model(reads, root@, path@),
        r is Err ==> r->Err_0 == RepoError::PathNotFound || r->Err_0 == RepoError::WrongKind
            || r->Err_0 == RepoError::CorruptHistory,
{
    if path.len() == 0 || (path.len() == 1 && path[0] == SLASH) {
        assert(path.len() == 1 && path[0] == SLASH ==> path@ =~= seq![SLASH]);
        assert(resolved_view(Ok((*root, EntryKind::Tree))) == resolve_model(
            Seq::empty(),
            root@,
            path@,
        ));
        Ok((*root, EntryKind::Tree))
    } else {
        let comps = split(path);
        let (r, Ghost(reads)) = walk(repo, *root, &comps, 0);
        assert(path@ != seq![SLASH]) by {
            if path@ == seq![SLASH] {
                assert(path@.len() == 1 && path@[0] == SLASH);
            }
        }
        assert(resolved_view(r) == resolve_model(reads, root@, path@));
        r
    }
}

} // verus!
