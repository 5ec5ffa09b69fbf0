//! Directory listings: the entries of a tree, each with what last touched
//! it, files and directories apart.

use crate::branches::{head_model, resolve_branch, BranchLookup};
use crate::common::{AppState, Failure, RepoError};
use crate::history::{
    attribute_named, attributions_view, first_unaccounted, named_view, paths_view, unknown,
    walk_outcome, walk_result, Attribution, AttributionModel, VisitModel, WalkRead,
};
use crate::object::{
    entries_view, kind_of_mode, CommitModel, CommitRecord, EntryKind, EntryModel, ObjectId,
    TreeEntry,
};
use crate::path::{comps_view, copy_bytes, split, split_path, SLASH};
use crate::resolve::{directory_model, directory_of, resolve_model, resolve_path, resolved_view};
use crate::store::{error_text, find_tree, open_repository, text_from_utf8, tree_list};
use vstd::prelude::*;
use vstd::utf8::{decode_utf8, encode_utf8, valid_utf8};

verus! {

/// One line of a listing, as a mathematical value.
pub struct FileInfoModel {
    pub name: Seq<char>,
    pub last_commit_message: Seq<char>,
    pub last_commit_timestamp: i64,
    pub last_commit_id: Seq<u8>,
}

/// One line of a listing: an entry and the commit that last touched it.
#[derive(Debug)]
pub struct FileInfo {
    pub name: String,
    pub last_commit_message: String,
    pub last_commit_timestamp: i64,
    pub last_commit_id: ObjectId,
}

impl View for FileInfo {
    type V = FileInfoModel;

    open spec fn view(&self) -> FileInfoModel {
        FileInfoModel {
            name: self.name@,
            last_commit_message: self.last_commit_message@,
            last_commit_timestamp: self.last_commit_timestamp,
            last_commit_id: self.last_commit_id@,
        }
    }
}

/// A listing, as a mathematical value.
pub struct FilesModel {
    pub blobs: Seq<FileInfoModel>,
    pub trees: Seq<FileInfoModel>,
}

/// A listing: the files of a directory and its subdirectories.
#[derive(Debug)]
pub struct Files {
    pub blobs: Vec<FileInfo>,
    pub trees: Vec<FileInfo>,
}

/// A list of lines, each as a mathematical value.
pub open spec fn infos_view(infos: Seq<FileInfo>) -> Seq<FileInfoModel> {
    infos.map_values(|f: FileInfo| f@)
}

impl View for Files {
    type V = FilesModel;

    open spec fn view(&self) -> FilesModel {
        FilesModel { blobs: infos_view(self.blobs@), trees: infos_view(self.trees@) }
    }
}

/// An entry that a listing shows, as a mathematical value.
pub struct ListedModel {
    pub name: Seq<char>,
    pub raw: Seq<u8>,
    pub kind: Option<EntryKind>,
}

/// An entry that a listing shows: its name as text and as bytes, and what
/// it names.
#[derive(Debug)]
pub struct Listed {
    pub name: String,
    pub raw: Vec<u8>,
    pub kind: Option<EntryKind>,
}

impl View for Listed {
    type V = ListedModel;

    open spec fn view(&self) -> ListedModel {
        ListedModel { name: self.name@, raw: self.raw@, kind: self.kind }
    }
}

/// A list of shown entries, each as a mathematical value.
pub open spec fn listed_view(listed: Seq<Listed>) -> Seq<ListedModel> {
    listed.map_values(|l: Listed| l@)
}

/// The entries that a listing shows: those whose names are valid UTF-8, in
/// the order of the tree.
pub open spec fn listed_model(entries: Seq<EntryModel>) -> Seq<ListedModel>
    decreases entries.len(),
{
    if entries.len() == 0 {
        Seq::empty()
    } else {
        let before = listed_model(entries.drop_last());
        let e = entries.last();
        if valid_utf8(e.name) {
            before.push(
                ListedModel { name: decode_utf8(e.name), raw: e.name, kind: kind_of_mode(e.mode) },
            )
        } else {
            before
        }
    }
}

/// Picks the entries that a listing shows.
pub fn named_entries(entries: &Vec<TreeEntry>) -> (r: Vec<Listed>)
    ensures
        listed_view(r@) == listed_model(entries_view(entries@)),
{
    let mut out: Vec<Listed> = Vec::new();
    let mut i: usize = 0;
    let ghost all = entries_view(entries@);
    assert(all.take(0) =~= Seq::<EntryModel>::empty());
    assert(listed_view(out@) =~= listed_model(all.take(0)));
    while i < entries.len()
        invariant
            i <= entries.len(),
            all == entries_view(entries@),
            listed_view(out@) == listed_model(all.take(i as int)),
        decreases entries.len() - i,
    {
        let ghost before = listed_view(out@);
        assert(all.take(i + 1).drop_last() =~= all.take(i as int));
        assert(all.take(i + 1).last() == entries@[i as int]@);
        let raw = copy_bytes(&entries[i].name);
        match text_from_utf8(copy_bytes(&entries[i].name)) {
            Some(name) => {
                let kind = entries[i].kind();
                let ghost shown = ListedModel { name: name@, raw: raw@, kind };
                out.push(Listed { name, raw, kind });
                assert(listed_view(out@) =~= before.push(shown));
            },
            None => {},
        }
        i += 1;
    }
    assert(all.take(entries.len() as int) =~= all);
    out
}

/// The directory that a listing is of, as components: none for the root,
/// and a single trailing slash counts for nothing.
pub open spec fn dir_model(path: Seq<u8>) -> Seq<Seq<u8>> {
    if path.len() == 0 || path == seq![SLASH] {
        Seq::empty()
    } else {
        let comps = split_path(path);
        if comps.len() > 1 && comps.last().len() == 0 {
            comps.drop_last()
        } else {
            comps
        }
    }
}

/// The components of the directory that a listing is of.
pub fn dir_components(path: &[u8]) -> (r: Vec<Vec<u8>>)
    ensures
        comps_view(r@) == dir_model(path@),
{
    if path.len() == 0 || (path.len() == 1 && path[0] == SLASH) {
        assert(path.len() == 1 && path[0] == SLASH ==> path@ =~= seq![SLASH]);
        let none: Vec<Vec<u8>> = Vec::new();
        assert(comps_view(none@) =~= Seq::<Seq<u8>>::empty());
        none
    } else {
        assert(path@ != seq![SLASH]) by {
            if path@ == seq![SLASH] {
                assert(path@.len() == 1 && path@[0] == SLASH);
            }
        }
        let mut comps = split(path);
        let ghost all = comps_view(comps@);
        let n = comps.len();
        if n > 1 && comps[n - 1].len() == 0 {
            comps.pop();
            assert(comps_view(comps@) =~= all.drop_last());
        }
        comps
    }
}

/// The full path of each shown entry: the directory, then its name.
pub open spec fn targets_model(listed: Seq<ListedModel>, dir: Seq<Seq<u8>>) -> Seq<
    Seq<Seq<u8>>,
> {
    Seq::new(listed.len(), |i: int| dir.push(listed[i].raw))
}

/// The full path of each shown entry.
pub fn listing_targets(listed: &Vec<Listed>, dir: &Vec<Vec<u8>>) -> (r: Vec<Vec<Vec<u8>>>)
    ensures
        paths_view(r@) == targets_model(listed_view(listed@), comps_view(dir@)),
{
    let mut out: Vec<Vec<Vec<u8>>> = Vec::new();
    let mut i: usize = 0;
    while i < listed.len()
        invariant
            i <= listed.len(),
            out.len() == i,
            forall|j: int|
                0 <= j < i ==> comps_view(#[trigger] out@[j]@) == comps_view(dir@).push(
                    listed@[j].raw@,
                ),
        decreases listed.len() - i,
    {
        let mut target: Vec<Vec<u8>> = Vec::new();
        let mut k: usize = 0;
        assert(comps_view(target@) =~= comps_view(dir@).take(0));
        while k < dir.len()
            invariant
                k <= dir.len(),
                comps_view(target@) == comps_view(dir@).take(k as int),
            decreases dir.len() - k,
        {
            let ghost prefix = comps_view(target@);
            target.push(copy_bytes(&dir[k]));
            assert(comps_view(target@) =~= prefix.push(dir@[k as int]@));
            assert(comps_view(target@) =~= comps_view(dir@).take(k + 1));
            k += 1;
        }
        assert(comps_view(dir@).take(dir.len() as int) =~= comps_view(dir@));
        let ghost whole = comps_view(target@);
        target.push(copy_bytes(&listed[i].raw));
        assert(comps_view(target@) =~= whole.push(listed@[i as int].raw@));
        out.push(target);
        i += 1;
    }
    assert(paths_view(out@) =~= targets_model(listed_view(listed@), comps_view(dir@)));
    out
}

/// The line for an entry and its attribution.
pub open spec fn info_model(shown: ListedModel, found: AttributionModel) -> FileInfoModel {
    FileInfoModel {
        name: shown.name,
        last_commit_message: found.message,
        last_commit_timestamp: found.timestamp,
        last_commit_id: found.commit,
    }
}

/// The listing of some shown entries with their attributions: blobs and
/// trees apart, each in the order of the entries; an entry that is neither
/// is left out.
pub open spec fn files_model(listed: Seq<ListedModel>, found: Seq<AttributionModel>) -> FilesModel
    decreases listed.len(),
{
    if listed.len() == 0 {
        FilesModel { blobs: Seq::empty(), trees: Seq::empty() }
    } else {
        let before = files_model(listed.drop_last(), found);
        let info = info_model(listed.last(), found[listed.len() - 1]);
        match listed.last().kind {
            Some(EntryKind::Blob) => FilesModel {
                blobs: before.blobs.push(info),
                trees: before.trees,
            },
            Some(EntryKind::Tree) => FilesModel {
                blobs: before.blobs,
                trees: before.trees.push(info),
            },
            None => before,
        }
    }
}

/// Puts a listing together.
pub fn assemble(listed: &Vec<Listed>, found: &Vec<Attribution>) -> (r: Files)
    requires
        listed.len() == found.len(),
    ensures
        r@ == files_model(listed_view(listed@), attributions_view(found@)),
{
    let mut blobs: Vec<FileInfo> = Vec::new();
    let mut trees: Vec<FileInfo> = Vec::new();
    let ghost shown = listed_view(listed@);
    let ghost credits = attributions_view(found@);
    let mut i: usize = 0;
    assert(shown.take(0) =~= Seq::<ListedModel>::empty());
    assert(infos_view(blobs@) =~= files_model(shown.take(0), credits).blobs);
    assert(infos_view(trees@) =~= files_model(shown.take(0), credits).trees);
    while i < listed.len()
        invariant
            i <= listed.len(),
            listed.len() == found.len(),
            shown == listed_view(listed@),
            credits == attributions_view(found@),
            infos_view(blobs@) == files_model(shown.take(i as int), credits).blobs,
            infos_view(trees@) == files_model(shown.take(i as int), credits).trees,
        decreases listed.len() - i,
    {
        let ghost before = files_model(shown.take(i as int), credits);
        assert(shown.take(i + 1).drop_last() =~= shown.take(i as int));
        assert(shown.take(i + 1).last() == listed@[i as int]@);
        assert(credits[i as int] == found@[i as int]@);
        match listed[i].kind {
            Some(kind) => {
                let info = FileInfo {
                    name: listed[i].name.clone(),
                    last_commit_message: found[i].message.clone(),
                    last_commit_timestamp: found[i].timestamp,
                    last_commit_id: found[i].commit,
                };
                let ghost line = info@;
                match kind {
                    EntryKind::Blob => {
                        blobs.push(info);
                        assert(infos_view(blobs@) =~= before.blobs.push(line));
                    },
                    EntryKind::Tree => {
                        trees.push(info);
                        assert(infos_view(trees@) =~= before.trees.push(line));
                    },
                }
            },
            None => {},
        }
        i += 1;
    }
    assert(shown.take(listed.len() as int) =~= shown);
    Files { blobs, trees }
}

/// What a listing states of what the store handed back: the entries of
/// the directory, and a walk from the head along first parents in which
/// each shown entry has the first commit that touches it.
pub open spec fn listing_outcome(
    entries: Seq<EntryModel>,
    visits: Seq<VisitModel>,
    found: Seq<AttributionModel>,
    head: CommitModel,
    path: Seq<u8>,
    files: FilesModel,
) -> bool {
    &&& walk_outcome(visits, head, targets_model(listed_model(entries), dir_model(path)), found)
    &&& files == files_model(listed_model(entries), found)
}

/// A listing can be accounted for by some entries and some walk.
pub open spec fn listing_holds(head: CommitModel, path: Seq<u8>, files: FilesModel) -> bool {
    exists|entries: Seq<EntryModel>, visits: Seq<VisitModel>, found: Seq<AttributionModel>|
        listing_outcome(entries, visits, found, head, path, files)
}

/// A listing can be accounted for from some head commit.
pub open spec fn branch_listing_holds(path: Seq<u8>, files: FilesModel) -> bool {
    exists|head: CommitModel| listing_holds(head, path, files)
}

/// A listing or an error, as a mathematical value.
pub open spec fn files_view(r: Result<Files, Failure>) -> Result<FilesModel, RepoError> {
    match r {
        Ok(files) => Ok(files@),
        Err(failure) => Err(failure.error),
    }
}

/// The full path of an entry of a listing: its name for a listing of the
/// root, else the path of the listing, a slash where the path does not end
/// in one, and the name.
pub open spec fn entry_path_text(path: Seq<char>, name: Seq<char>) -> Seq<char> {
    let bytes = encode_utf8(path);
    if bytes.len() == 0 || bytes == seq![SLASH] {
        name
    } else if bytes.last() == SLASH {
        path + name
    } else {
        path + "/"@ + name
    }
}

/// The full path of an entry of a listing.
pub fn entry_path(path: &str, name: &str) -> (r: String)
    ensures
        r@ == entry_path_text(path@, name@),
{
    let bytes = path.as_bytes();
    let n = bytes.len();
    if n == 0 || (n == 1 && bytes[0] == SLASH) {
        assert(n == 1 && bytes[0] == SLASH ==> bytes@ =~= seq![SLASH]);
        name.to_owned()
    } else {
        assert(bytes@ != seq![SLASH]) by {
            if bytes@ == seq![SLASH] {
                assert(bytes@.len() == 1 && bytes@[0] == SLASH);
            }
        }
        let mut text = path.to_owned();
        if bytes[n - 1] != SLASH {
            text.append("/");
        }
        text.append(name);
        text
    }
}

/// A failure names an entry that some walk from `head` leaves without a
/// commit: the first such entry of the listing, by its full path.
pub open spec fn names_unaccounted(
    head: CommitModel,
    entries: Seq<EntryModel>,
    path: Seq<char>,
    failure: Failure,
) -> bool {
    &&& failure.error == RepoError::AttributionFailure
    &&& exists|i: int|
        #[trigger] first_unaccounted(
            head,
            targets_model(listed_model(entries), dir_model(encode_utf8(path))),
            i,
        ) && failure.detail@ == entry_path_text(path, listed_model(entries)[i].name)
}

/// A failure of a listing says what it is about: the full path of an
/// entry where an entry is unaccounted for, and nothing else.
pub open spec fn detail_holds(path: Seq<char>, failure: Failure) -> bool {
    if failure.error == RepoError::AttributionFailure {
        exists|name: Seq<char>| failure.detail@ == #[trigger] entry_path_text(path, name)
    } else {
        failure.detail@ == Seq::<char>::empty()
    }
}

/// The listing of the entries of a directory, over what the walk is
/// handed: the lines for the entries where the walk accounts for each, the
/// error of the walk where it does not.
pub open spec fn lines_model(
    entries: Seq<EntryModel>,
    walk_reads: Seq<WalkRead>,
    head: CommitModel,
    path: Seq<u8>,
) -> Result<FilesModel, RepoError> {
    let listed = listed_model(entries);
    match walk_result(
        walk_reads,
        head,
        unknown(listed.len()),
        targets_model(listed, dir_model(path)),
    ) {
        Ok(found) => Ok(files_model(listed, found)),
        Err(e) => Err(e),
    }
}

/// The listing of a path as of a commit, over what the store hands back:
/// the trees along the path, the entries of the directory (`None` where it
/// cannot be read) and the reads of the walk. A path that names a file is
/// `WrongKind`; a directory that cannot be read is `CorruptHistory`.
pub open spec fn listing_model(
    path_reads: Seq<Option<Seq<EntryModel>>>,
    entries: Option<Seq<EntryModel>>,
    walk_reads: Seq<WalkRead>,
    head: CommitModel,
    path: Seq<u8>,
) -> Result<FilesModel, RepoError> {
    match directory_model(resolve_model(path_reads, head.tree, path)) {
        Err(e) => Err(e),
        Ok(_) => match entries {
            None => Err(RepoError::CorruptHistory),
            Some(list) => lines_model(list, walk_reads, head, path),
        },
    }
}

/// A result is that of a listing for some answers of the store.
pub open spec fn listing_reads_hold(
    head: CommitModel,
    path: Seq<u8>,
    outcome: Result<FilesModel, RepoError>,
) -> bool {
    exists|
        path_reads: Seq<Option<Seq<EntryModel>>>,
        entries: Option<Seq<EntryModel>>,
        walk_reads: Seq<WalkRead>,
    |
        outcome == #[trigger] listing_model(path_reads, entries, walk_reads, head, path)
}

/// The answer to a request for a listing: `RepositoryUnavailable` where
/// the repository did not open, the error of the branch lookup where that
/// failed, else the listing as of the head.
pub open spec fn tree_request_model(
    opened: bool,
    lookup: BranchLookup,
    path_reads: Seq<Option<Seq<EntryModel>>>,
    entries: Option<Seq<EntryModel>>,
    walk_reads: Seq<WalkRead>,
    path: Seq<u8>,
) -> Result<FilesModel, RepoError> {
    if opened {
        match head_model(lookup) {
            Err(e) => Err(e),
            Ok(head) => listing_model(path_reads, entries, walk_reads, head@, path),
        }
    } else {
        Err(RepoError::RepositoryUnavailable)
    }
}

/// A result is that of a request for a listing for some answers of the
/// store.
pub open spec fn tree_request_holds(path: Seq<u8>, outcome: Result<FilesModel, RepoError>) -> bool {
    exists|
        opened: bool,
        lookup: BranchLookup,
        path_reads: Seq<Option<Seq<EntryModel>>>,
        entries: Option<Seq<EntryModel>>,
        walk_reads: Seq<WalkRead>,
    |
        outcome == #[trigger] tree_request_model(
            opened,
            lookup,
            path_reads,
            entries,
            walk_reads,
            path,
        )
}

/// Entries that were read, as a mathematical value.
pub open spec fn entries_read_view(read: Option<Vec<TreeEntry>>) -> Option<Seq<EntryModel>> {
    match read {
        Some(list) => Some(entries_view(list@)),
        None => None,
    }
}

/// Reads the entries of a tree, if the store has it.
fn try_read_tree(repo: &git2::Repository, id: &ObjectId) -> (r: Option<Vec<TreeEntry>>) {
    match find_tree(repo, id) {
        Ok(tree) => Some(tree_list(&tree)),
        Err(_) => None,
    }
}

/// The lines for the entries of a directory: each shown entry with the
/// commit that the walk from `head` finds for it. Where the walk cannot
/// account for an entry, the failure names the first such entry by its full
/// path.
fn list_entries(
    repo: &git2::Repository,
    head: CommitRecord,
    entries: &Vec<TreeEntry>,
    path: &str,
) -> (r: Result<Files, Failure>)
    ensures
        exists|walk_reads: Seq<WalkRead>|
            files_view(r) == #[trigger] lines_model(
                entries_view(entries@),
                walk_reads,
                head@,
                encode_utf8(path@),
            ),
        r is Ok ==> listing_holds(head@, encode_utf8(path@), r->Ok_0@),
        r is Err ==> names_unaccounted(head@, entries_view(entries@), path@, r->Err_0),
{
    let ghost place = encode_utf8(path@);
    let listed = named_entries(entries);
    let dir = dir_components(path.as_bytes());
    let targets = listing_targets(&listed, &dir);
    let ghost wanted = paths_view(targets@);
    let ghost start = head@;
    let walked = attribute_named(repo, head, targets);
    let ghost walk_reads = choose|reads: Seq<WalkRead>|
        named_view(walked) == #[trigger] walk_result(
            reads,
            start,
            unknown(wanted.len()),
            wanted,
        );
    let found = match walked {
        Ok(found) => found,
        Err(missing) => {
            assert(first_unaccounted(start, wanted, missing.index as int));
            assert(missing.index < listed.len());
            let failure = Failure::unaccounted(
                entry_path(path, listed[missing.index].name.as_str()),
            );
            assert(listed_view(listed@)[missing.index as int].name == listed@[missing.index
                as int].name@);
            assert(files_view(Err(failure)) == lines_model(
                entries_view(entries@),
                walk_reads,
                start,
                place,
            ));
            return Err(failure);
        },
    };
    let files = assemble(&listed, &found);
    proof {
        let credits = attributions_view(found@);
        let visits = choose|visits: Seq<VisitModel>|
            walk_outcome(visits, start, wanted, credits);
        assert(listing_outcome(entries_view(entries@), visits, credits, start, place, files@));
        assert(files_view(Ok(files)) == lines_model(
            entries_view(entries@),
            walk_reads,
            start,
            place,
        ));
    }
    Ok(files)
}

/// Lists the directory at `path` as of the commit `head`.
///
/// The result is `listing_model` of what the store handed back: the error
/// of the path resolution, `WrongKind` for a path that names a file,
/// `CorruptHistory` for a directory that cannot be read, the error of the
/// walk, and else the lines for the entries. A failure to account for an
/// entry names the entry by its full path.
pub fn list_directory(repo: &git2::Repository, head: CommitRecord, path: &str) -> (r: Result<
    Files,
    Failure,
>)
    ensures
        listing_reads_hold(head@, encode_utf8(path@), files_view(r)),
        r is Ok ==> listing_holds(head@, encode_utf8(path@), r->Ok_0@),
        r is Err ==> detail_holds(path@, r->Err_0),
        r is Err ==> r->Err_0.error == RepoError::PathNotFound || r->Err_0.error
            == RepoError::WrongKind || r->Err_0.error == RepoError::CorruptHistory
            || r->Err_0.error == RepoError::AttributionFailure,
{
    let ghost start = head@;
    let ghost place = encode_utf8(path@);
    let resolved = resolve_path(repo, &head.tree, path.as_bytes());
    let ghost path_reads = choose|reads: Seq<Option<Seq<EntryModel>>>|
        resolved_view(resolved) == resolve_model(reads, start.tree, place);
    let id = match directory_of(resolved) {
        Ok(id) => id,
        Err(e) => {
            assert(Err::<FilesModel, RepoError>(e) == listing_model(
                path_reads,
                None,
                Seq::empty(),
                start,
                place,
            ));
            return Err(Failure::plain(e));
        },
    };
    let entries = match try_read_tree(repo, &id) {
        Some(entries) => entries,
        None => {
            assert(Err::<FilesModel, RepoError>(RepoError::CorruptHistory) == listing_model(
                path_reads,
                None,
                Seq::empty(),
                start,
                place,
            ));
            return Err(Failure::plain(RepoError::CorruptHistory));
        },
    };
    let r = list_entries(repo, head, &entries, path);
    proof {
        let walk_reads = choose|walk_reads: Seq<WalkRead>|
            files_view(r) == #[trigger] lines_model(
                entries_view(entries@),
                walk_reads,
                start,
                place,
            );
        assert(files_view(r) == listing_model(
            path_reads,
            Some(entries_view(entries@)),
            walk_reads,
            start,
            place,
        ));
        if r is Err {
            let failure = r->Err_0;
            let i = choose|i: int|
                #[trigger] first_unaccounted(
                    start,
                    targets_model(listed_model(entries_view(entries@)), dir_model(place)),
                    i,
                ) && failure.detail@ == entry_path_text(
                    path@,
                    listed_model(entries_view(entries@))[i].name,
                );
            assert(failure.detail@ == entry_path_text(
                path@,
                listed_model(entries_view(entries@))[i].name,
            ));
        }
    }
    r
}

/// A failure of a request says what it is about: the store's reason where
/// the repository is unavailable, else what a listing says.
pub open spec fn request_detail_holds(path: Seq<char>, failure: Failure) -> bool {
    failure.error != RepoError::RepositoryUnavailable ==> detail_holds(path, failure)
}

/// Lists the directory at `path` on `branch`; the empty path and `/` stand
/// for the root.
///
/// The result is `tree_request_model` of what the repository handed back.
pub fn get_tree(state: &AppState, branch: &str, path: &str) -> (r: Result<Files, Failure>)
    ensures
        tree_request_holds(encode_utf8(path@), files_view(r)),
        r is Ok ==> branch_listing_holds(encode_utf8(path@), r->Ok_0@),
        r is Err ==> request_detail_holds(path@, r->Err_0),
        r is Err ==> r->Err_0.error != RepoError::NotText && r->Err_0.error
            != RepoError::WriteFailed && r->Err_0.error != RepoError::RefUpdateFailed
            && r->Err_0.error != RepoError::ConcurrentModification,
{
    let ghost bytes = encode_utf8(path@);
    let repo = match open_repository(state) {
        Ok(repo) => repo,
        Err(e) => {
            assert(Err::<FilesModel, RepoError>(RepoError::RepositoryUnavailable)
                == tree_request_model(
                false,
                BranchLookup::NoReference,
                Seq::empty(),
                None,
                Seq::empty(),
                bytes,
            ));
            return Err(Failure::unavailable(error_text(&e)));
        },
    };
    let looked = resolve_branch(&repo, branch);
    let ghost lookup = choose|lookup: BranchLookup| looked == head_model(lookup);
    let head = match looked {
        Ok(head) => head,
        Err(e) => {
            assert(Err::<FilesModel, RepoError>(e) == tree_request_model(
                true,
                lookup,
                Seq::empty(),
                None,
                Seq::empty(),
                bytes,
            ));
            return Err(Failure::plain(e));
        },
    };
    let ghost start = head@;
    let listing = list_directory(&repo, head, path);
    proof {
        let (path_reads, entries, walk_reads) = choose|
            path_reads: Seq<Option<Seq<EntryModel>>>,
            entries: Option<Seq<EntryModel>>,
            walk_reads: Seq<WalkRead>,
        |
            files_view(listing) == #[trigger] listing_model(
                path_reads,
                entries,
                walk_reads,
                start,
                bytes,
            );
        assert(files_view(listing) == tree_request_model(
            true,
            lookup,
            path_reads,
            entries,
            walk_reads,
            bytes,
        ));
        assert(listing is Ok ==> listing_holds(start, bytes, listing->Ok_0@));
    }
    listing
}

/// Lists the root directory of `branch`.
pub fn get_root_tree(state: &AppState, branch: &str) -> (r: Result<Files, Failure>)
    ensures
        tree_request_holds(Seq::empty(), files_view(r)),
        r is Ok ==> branch_listing_holds(Seq::empty(), r->Ok_0@),
        r is Err ==> request_detail_holds(Seq::empty(), r->Err_0),
        r is Err ==> r->Err_0.error != RepoError::NotText && r->Err_0.error
            != RepoError::WriteFailed && r->Err_0.error != RepoError::RefUpdateFailed
            && r->Err_0.error != RepoError::ConcurrentModification,
{
    proof {
        reveal_strlit("");
        assert(""@ =~= Seq::<char>::empty());
        assert(encode_utf8(""@) =~= Seq::<u8>::empty()) by {
            reveal_with_fuel(encode_utf8, 1);
        }
    }
    get_tree(state, branch, "")
}

} // verus!
