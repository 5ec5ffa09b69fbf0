//! The decisions of the library on plain values, without a repository.

use basic_git_ui::blob::{answer_of, confirmation, decode_text, edit_answer, text_of};
use basic_git_ui::branches::{
    catalog_of, catalog_scope, head_from, lookup_failure, present_names, BranchLookup, BranchScope,
};
use basic_git_ui::common::{Failure, RepoError};
use basic_git_ui::history::{
    accept_parent, changed_paths, changes_from, credit_commit, diff_sides, first_parent,
    single_attribution, touches_any, Attribution, Attributor,
};
use basic_git_ui::info::RepositoryInfo;
use basic_git_ui::mutate::{
    advance_failure, advance_result, branch_ref, branch_update, receipt_update, EditReceipt,
};
use basic_git_ui::object::{
    CommitRecord, EntryKind, ObjectId, TreeEntry, MODE_EXECUTABLE, MODE_FILE, MODE_TREE,
};
use basic_git_ui::path::{bytes_equal, copy_bytes, split, starts_with};
use basic_git_ui::resolve::{blob_of, directory_of, find_entry, resolve_step, Step};
use basic_git_ui::store::DeltaPaths;
use basic_git_ui::tree::{
    assemble, dir_components, entry_path, listing_targets, named_entries, Listed,
};

fn id(n: u8) -> ObjectId {
    ObjectId::from_bytes([n; 20])
}

fn comps(parts: &[&str]) -> Vec<Vec<u8>> {
    parts.iter().map(|p| p.as_bytes().to_vec()).collect()
}

fn entry(name: &str, n: u8, mode: u32) -> TreeEntry {
    TreeEntry { name: name.as_bytes().to_vec(), id: id(n), mode }
}

fn record(n: u8, parents: Vec<ObjectId>, summary: Option<&str>, time: i64) -> CommitRecord {
    CommitRecord { id: id(n), tree: id(n + 100), parents, summary: summary.map(|s| s.to_string()), time }
}

#[test]
fn split_separates_on_every_slash() {
    assert_eq!(split(b"a/b/c"), comps(&["a", "b", "c"]));
    assert_eq!(split(b"file.txt"), comps(&["file.txt"]));
    assert_eq!(split(b""), comps(&[""]));
    assert_eq!(split(b"/"), comps(&["", ""]));
    assert_eq!(split(b"a//b"), comps(&["a", "", "b"]));
    assert_eq!(split(b"/a"), comps(&["", "a"]));
    assert_eq!(split(b"a/"), comps(&["a", ""]));
    assert_eq!(split(b"a/./../b"), comps(&["a", ".", "..", "b"]));
}

#[test]
fn split_then_join_gives_the_path_back() {
    for path in ["a/b/c", "", "/", "a//b/", "x"] {
        let parts = split(path.as_bytes());
        assert_eq!(parts.join(&b'/'), path.as_bytes().to_vec());
        assert!(parts.iter().all(|c| !c.contains(&b'/')));
    }
}

#[test]
fn bytes_are_compared_and_copied() {
    assert!(bytes_equal(&b"abc".to_vec(), &b"abc".to_vec()));
    assert!(!bytes_equal(&b"abc".to_vec(), &b"abd".to_vec()));
    assert!(!bytes_equal(&b"abc".to_vec(), &b"ab".to_vec()));
    assert!(bytes_equal(&Vec::new(), &Vec::new()));
    assert_eq!(copy_bytes(&b"abc".to_vec()), b"abc".to_vec());
    assert_eq!(copy_bytes(&Vec::new()), Vec::<u8>::new());
}

#[test]
fn prefix_match_is_by_whole_components() {
    assert!(starts_with(&comps(&["a", "b", "c"]), &comps(&["a", "b"])));
    assert!(starts_with(&comps(&["a", "b"]), &comps(&["a", "b"])));
    assert!(starts_with(&comps(&["a", "b"]), &comps(&[])));
    assert!(!starts_with(&comps(&["a", "bc"]), &comps(&["a", "b"])));
    assert!(!starts_with(&comps(&["a"]), &comps(&["a", "b"])));
    assert!(!starts_with(&comps(&["x", "b"]), &comps(&["a"])));
}

#[test]
fn id_prints_as_forty_hex_digits() {
    let mut bytes = [0u8; 20];
    for (i, b) in bytes.iter_mut().enumerate() {
        *b = (i as u8) * 13 + 1;
    }
    let id = ObjectId::from_bytes(bytes);
    assert_eq!(id.to_hex(), "010e1b2835424f5c697683909daab7c4d1deebf8");
    assert_eq!(ObjectId::from_bytes([0u8; 20]).to_hex(), "0".repeat(40));
    assert_eq!(ObjectId::from_bytes([0xffu8; 20]).to_hex(), "f".repeat(40));
    assert_eq!(ObjectId::from_bytes([0xa0u8; 20]).to_hex(), "a0".repeat(20));
}

#[test]
fn ids_are_equal_byte_by_byte() {
    let mut other = [3u8; 20];
    assert!(id(3).same(&ObjectId::from_bytes(other)));
    other[19] = 4;
    assert!(!id(3).same(&ObjectId::from_bytes(other)));
    other[19] = 3;
    other[0] = 4;
    assert!(!id(3).same(&ObjectId::from_bytes(other)));
}

#[test]
fn kind_follows_the_file_mode() {
    assert_eq!(entry("a", 1, MODE_FILE).kind(), Some(EntryKind::Blob));
    assert_eq!(entry("a", 1, MODE_EXECUTABLE).kind(), Some(EntryKind::Blob));
    assert_eq!(entry("a", 1, 0o120000).kind(), Some(EntryKind::Blob));
    assert_eq!(entry("a", 1, MODE_TREE).kind(), Some(EntryKind::Tree));
    assert_eq!(entry("a", 1, 0o160000).kind(), None);
    assert_eq!(MODE_FILE, 0o100644);
    assert_eq!(MODE_TREE, 0o040000);
    assert_eq!(MODE_EXECUTABLE, 0o100755);
}

#[test]
fn entry_is_found_by_exact_name() {
    let entries = vec![entry("a", 1, MODE_FILE), entry("ab", 2, MODE_FILE), entry("b", 3, MODE_TREE)];
    assert_eq!(find_entry(&entries, &b"ab".to_vec()), Some(1));
    assert_eq!(find_entry(&entries, &b"a".to_vec()), Some(0));
    assert_eq!(find_entry(&entries, &b"b".to_vec()), Some(2));
    assert_eq!(find_entry(&entries, &b"A".to_vec()), None);
    assert_eq!(find_entry(&entries, &b"".to_vec()), None);
    assert_eq!(find_entry(&Vec::new(), &b"a".to_vec()), None);
    let twice = vec![entry("a", 1, MODE_FILE), entry("a", 2, MODE_FILE)];
    assert_eq!(find_entry(&twice, &b"a".to_vec()), Some(1));
}

#[test]
fn step_decides_one_level() {
    let entries = vec![
        entry("docs", 1, MODE_TREE),
        entry("file", 2, MODE_FILE),
        entry("link", 3, 0o160000),
    ];
    match resolve_step(&entries, &comps(&["docs", "x"]), 0) {
        Step::Descend(next) => assert_eq!(next.bytes, id(1).bytes),
        other => panic!("{:?}", other),
    }
    match resolve_step(&entries, &comps(&["docs"]), 0) {
        Step::Found(found, kind) => {
            assert_eq!(found.bytes, id(1).bytes);
            assert_eq!(kind, EntryKind::Tree);
        }
        other => panic!("{:?}", other),
    }
    match resolve_step(&entries, &comps(&["x", "file"]), 1) {
        Step::Found(found, kind) => {
            assert_eq!(found.bytes, id(2).bytes);
            assert_eq!(kind, EntryKind::Blob);
        }
        other => panic!("{:?}", other),
    }
    assert!(matches!(resolve_step(&entries, &comps(&["file", "x"]), 0), Step::Fail(RepoError::WrongKind)));
    assert!(matches!(resolve_step(&entries, &comps(&["link", "x"]), 0), Step::Fail(RepoError::WrongKind)));
    assert!(matches!(resolve_step(&entries, &comps(&["link"]), 0), Step::Fail(RepoError::WrongKind)));
    assert!(matches!(resolve_step(&entries, &comps(&["nope"]), 0), Step::Fail(RepoError::PathNotFound)));
    assert!(matches!(resolve_step(&entries, &comps(&["nope", "x"]), 0), Step::Fail(RepoError::PathNotFound)));
}

#[test]
fn changed_paths_prefer_the_new_side() {
    let deltas = vec![
        DeltaPaths { new_path: Some(b"a/b".to_vec()), old_path: Some(b"x/y".to_vec()) },
        DeltaPaths { new_path: None, old_path: Some(b"gone".to_vec()) },
        DeltaPaths { new_path: None, old_path: None },
        DeltaPaths { new_path: Some(b"c".to_vec()), old_path: None },
    ];
    assert_eq!(changed_paths(&deltas), vec![comps(&["a", "b"]), comps(&["gone"]), comps(&["c"])]);
    assert_eq!(changed_paths(&Vec::new()), Vec::<Vec<Vec<u8>>>::new());
}

#[test]
fn change_set_touches_a_target_at_or_above_a_changed_path() {
    let changes = vec![comps(&["src", "lib", "util.rs"]), comps(&["README.md"])];
    assert!(touches_any(&changes, &comps(&["src"])));
    assert!(touches_any(&changes, &comps(&["src", "lib"])));
    assert!(touches_any(&changes, &comps(&["src", "lib", "util.rs"])));
    assert!(touches_any(&changes, &comps(&["README.md"])));
    assert!(!touches_any(&changes, &comps(&["src", "main.rs"])));
    assert!(!touches_any(&changes, &comps(&["sr"])));
    assert!(!touches_any(&changes, &comps(&["src", "lib", "util.rs", "x"])));
    assert!(!touches_any(&Vec::new(), &comps(&["src"])));
}

#[test]
fn walk_goes_to_the_first_parent_only() {
    let merge = record(9, vec![id(1), id(2), id(3)], Some("m"), 5);
    assert_eq!(first_parent(&merge).unwrap().bytes, id(1).bytes);
    let plain = record(9, vec![id(4)], Some("m"), 5);
    assert_eq!(first_parent(&plain).unwrap().bytes, id(4).bytes);
    let root = record(9, vec![], Some("m"), 5);
    assert!(first_parent(&root).is_none());
}

#[test]
fn credit_names_the_commit() {
    let a = credit_commit(&record(7, vec![], Some("fix it"), -12));
    assert_eq!(a.message, "fix it");
    assert_eq!(a.timestamp, -12);
    assert_eq!(a.commit.bytes, id(7).bytes);
    let b = credit_commit(&record(8, vec![], None, i64::MAX));
    assert_eq!(b.message, "");
    assert_eq!(b.timestamp, i64::MAX);
}

#[test]
fn attributor_keeps_the_first_commit_that_touches_each_target() {
    let targets = vec![comps(&["a"]), comps(&["b"]), comps(&["c"])];
    let mut state = Attributor::new(targets);
    assert!(!state.is_complete());
    state.observe(&record(3, vec![id(2)], Some("third"), 30), &vec![comps(&["b", "x"])]);
    assert!(!state.is_complete());
    state.observe(&record(2, vec![id(1)], Some("second"), 20), &vec![comps(&["a"]), comps(&["b"])]);
    assert!(!state.is_complete());
    state.observe(&record(1, vec![], Some("first"), 10), &vec![comps(&["a"]), comps(&["b"]), comps(&["c"])]);
    assert!(state.is_complete());
    let found = state.finish().unwrap();
    assert_eq!(found.len(), 3);
    assert_eq!(found[0].commit.bytes, id(2).bytes);
    assert_eq!(found[0].message, "second");
    assert_eq!(found[0].timestamp, 20);
    assert_eq!(found[1].commit.bytes, id(3).bytes);
    assert_eq!(found[2].commit.bytes, id(1).bytes);
}

#[test]
fn attributor_fails_while_an_entry_is_unaccounted_for() {
    let mut state = Attributor::new(vec![comps(&["a"]), comps(&["b"])]);
    state.observe(&record(1, vec![], Some("only"), 10), &vec![comps(&["a"])]);
    assert!(!state.is_complete());
    assert_eq!(state.finish().unwrap_err(), RepoError::AttributionFailure);
    let empty = Attributor::new(Vec::new());
    assert!(empty.is_complete());
    assert!(empty.finish().unwrap().is_empty());
}

#[test]
fn present_names_keep_order_and_drop_gaps() {
    let items = vec![Some("main".to_string()), None, Some("dev".to_string()), None];
    assert_eq!(present_names(&items), vec!["main".to_string(), "dev".to_string()]);
    assert_eq!(present_names(&Vec::new()), Vec::<String>::new());
    assert_eq!(present_names(&vec![None, None]), Vec::<String>::new());
}

#[test]
fn info_falls_back_to_unknown() {
    let a = RepositoryInfo::new(Some("repo.git".to_string()), Some("main".to_string()));
    assert_eq!(a.name, "repo.git");
    assert_eq!(a.main_branch, Some("main".to_string()));
    let b = RepositoryInfo::new(None, None);
    assert_eq!(b.name, "unknown");
    assert_eq!(b.main_branch, None);
}

#[test]
fn text_is_decoded_or_refused() {
    assert_eq!(decode_text(b"plain".to_vec()), Ok("plain".to_string()));
    assert_eq!(decode_text(Vec::new()), Ok(String::new()));
    assert_eq!(decode_text("gr\u{fc}n \u{1f600}".as_bytes().to_vec()), Ok("gr\u{fc}n \u{1f600}".to_string()));
    assert_eq!(decode_text(vec![0xff, 0xfe]), Err(RepoError::NotText));
    assert_eq!(decode_text(vec![b'a', 0x80]), Err(RepoError::NotText));
    assert_eq!(decode_text(vec![0xc0, 0xaf]), Err(RepoError::NotText));
    assert_eq!(decode_text(vec![0xed, 0xa0, 0x80]), Err(RepoError::NotText));
    assert_eq!(decode_text(vec![0xe2, 0x82]), Err(RepoError::NotText));
}

#[test]
fn confirmation_names_path_branch_and_commit() {
    let said = confirmation("src/main.rs", "main", &id(0xab));
    assert_eq!(said, format!("Updated 'src/main.rs' in branch 'main' with commit {}", "ab".repeat(20)));
    assert_eq!(confirmation("", "", &id(0)), format!("Updated '' in branch '' with commit {}", "0".repeat(40)));
}

#[test]
fn branch_reference_name() {
    assert_eq!(branch_ref("main"), "refs/heads/main");
    assert_eq!(branch_ref("feature/x"), "refs/heads/feature/x");
    assert_eq!(branch_ref(""), "refs/heads/");
}

#[test]
fn failed_advance_is_classified() {
    assert_eq!(advance_failure(true), RepoError::ConcurrentModification);
    assert_eq!(advance_failure(false), RepoError::RefUpdateFailed);
}

#[test]
fn directory_components_ignore_one_trailing_slash() {
    assert_eq!(dir_components(b""), comps(&[]));
    assert_eq!(dir_components(b"/"), comps(&[]));
    assert_eq!(dir_components(b"src"), comps(&["src"]));
    assert_eq!(dir_components(b"src/"), comps(&["src"]));
    assert_eq!(dir_components(b"src/lib"), comps(&["src", "lib"]));
    assert_eq!(dir_components(b"src//"), comps(&["src", ""]));
}

#[test]
fn listing_shows_entries_with_readable_names() {
    let mut entries = vec![entry("b.txt", 1, MODE_FILE), entry("dir", 2, MODE_TREE)];
    entries.push(TreeEntry { name: vec![0xff, b'x'], id: id(3), mode: MODE_FILE });
    entries.push(entry("mod", 4, 0o160000));
    let listed = named_entries(&entries);
    assert_eq!(listed.len(), 3);
    assert_eq!(listed[0].name, "b.txt");
    assert_eq!(listed[0].raw, b"b.txt".to_vec());
    assert_eq!(listed[0].kind, Some(EntryKind::Blob));
    assert_eq!(listed[1].name, "dir");
    assert_eq!(listed[1].kind, Some(EntryKind::Tree));
    assert_eq!(listed[2].name, "mod");
    assert_eq!(listed[2].kind, None);
    assert!(named_entries(&Vec::new()).is_empty());
}

#[test]
fn listing_targets_are_directory_then_name() {
    let listed = named_entries(&vec![entry("a", 1, MODE_FILE), entry("b", 2, MODE_TREE)]);
    let targets = listing_targets(&listed, &comps(&["src", "lib"]));
    assert_eq!(targets, vec![comps(&["src", "lib", "a"]), comps(&["src", "lib", "b"])]);
    let top = listing_targets(&listed, &comps(&[]));
    assert_eq!(top, vec![comps(&["a"]), comps(&["b"])]);
}

#[test]
fn listing_is_assembled_by_kind() {
    let listed = vec![
        Listed { name: "a".to_string(), raw: b"a".to_vec(), kind: Some(EntryKind::Blob) },
        Listed { name: "d".to_string(), raw: b"d".to_vec(), kind: Some(EntryKind::Tree) },
        Listed { name: "m".to_string(), raw: b"m".to_vec(), kind: None },
        Listed { name: "z".to_string(), raw: b"z".to_vec(), kind: Some(EntryKind::Blob) },
    ];
    let found: Vec<Attribution> = (1u8..=4)
        .map(|n| Attribution { message: format!("c{}", n), timestamp: n as i64, commit: id(n) })
        .collect();
    let files = assemble(&listed, &found);
    assert_eq!(files.blobs.len(), 2);
    assert_eq!(files.trees.len(), 1);
    assert_eq!(files.blobs[0].name, "a");
    assert_eq!(files.blobs[0].last_commit_message, "c1");
    assert_eq!(files.blobs[0].last_commit_timestamp, 1);
    assert_eq!(files.blobs[0].last_commit_id.bytes, id(1).bytes);
    assert_eq!(files.blobs[1].name, "z");
    assert_eq!(files.blobs[1].last_commit_id.bytes, id(4).bytes);
    assert_eq!(files.trees[0].name, "d");
    assert_eq!(files.trees[0].last_commit_message, "c2");
    let none = assemble(&Vec::new(), &Vec::new());
    assert!(none.blobs.is_empty() && none.trees.is_empty());
}

#[test]
fn every_error_has_its_message() {
    assert_eq!(RepoError::RepositoryUnavailable.message(), "repository unavailable");
    assert_eq!(RepoError::BranchNotFound.message(), "branch not found");
    assert_eq!(RepoError::CorruptHistory.message(), "corrupt history");
    assert_eq!(RepoError::PathNotFound.message(), "path not found");
    assert_eq!(RepoError::WrongKind.message(), "wrong kind of object");
    assert_eq!(RepoError::NotText.message(), "file is not valid UTF-8");
    assert_eq!(RepoError::AttributionFailure.message(), "no commit found for entry");
    assert_eq!(RepoError::WriteFailed.message(), "write failed");
    assert_eq!(RepoError::RefUpdateFailed.message(), "branch update failed");
    assert_eq!(RepoError::ConcurrentModification.message(), "branch was modified concurrently");
}

#[test]
fn every_error_has_its_status() {
    assert_eq!(RepoError::RepositoryUnavailable.status(), 503);
    assert_eq!(RepoError::BranchNotFound.status(), 404);
    assert_eq!(RepoError::PathNotFound.status(), 404);
    assert_eq!(RepoError::WrongKind.status(), 400);
    assert_eq!(RepoError::NotText.status(), 422);
    assert_eq!(RepoError::ConcurrentModification.status(), 409);
    assert_eq!(RepoError::CorruptHistory.status(), 500);
    assert_eq!(RepoError::AttributionFailure.status(), 500);
    assert_eq!(RepoError::WriteFailed.status(), 500);
    assert_eq!(RepoError::RefUpdateFailed.status(), 500);
}

#[test]
fn failed_lookup_is_classified() {
    assert_eq!(lookup_failure(false), RepoError::BranchNotFound);
    assert_eq!(lookup_failure(true), RepoError::CorruptHistory);
}

#[test]
fn head_comes_from_what_the_lookup_found() {
    assert_eq!(head_from(BranchLookup::NoReference).unwrap_err(), RepoError::BranchNotFound);
    assert_eq!(head_from(BranchLookup::NoCommit).unwrap_err(), RepoError::CorruptHistory);
    let head = head_from(BranchLookup::Head(record(5, vec![id(4)], Some("s"), 9))).unwrap();
    assert_eq!(head.id.bytes, id(5).bytes);
    assert_eq!(head.tree.bytes, id(105).bytes);
    assert_eq!(head.parents.len(), 1);
    assert_eq!(head.summary, Some("s".to_string()));
    assert_eq!(head.time, 9);
}

#[test]
fn a_path_to_a_file_is_no_directory() {
    assert_eq!(directory_of(Ok((id(1), EntryKind::Tree))).unwrap().bytes, id(1).bytes);
    assert_eq!(directory_of(Ok((id(1), EntryKind::Blob))).unwrap_err(), RepoError::WrongKind);
    assert_eq!(directory_of(Err(RepoError::PathNotFound)).unwrap_err(), RepoError::PathNotFound);
    assert_eq!(directory_of(Err(RepoError::CorruptHistory)).unwrap_err(), RepoError::CorruptHistory);
}

#[test]
fn a_path_to_a_directory_is_no_file() {
    assert_eq!(blob_of(Ok((id(2), EntryKind::Blob))).unwrap().bytes, id(2).bytes);
    assert_eq!(blob_of(Ok((id(2), EntryKind::Tree))).unwrap_err(), RepoError::WrongKind);
    assert_eq!(blob_of(Err(RepoError::PathNotFound)).unwrap_err(), RepoError::PathNotFound);
    assert_eq!(blob_of(Err(RepoError::WrongKind)).unwrap_err(), RepoError::WrongKind);
}

#[test]
fn text_comes_from_the_bytes_that_were_read() {
    assert_eq!(text_of(Some(b"abc".to_vec())), Ok("abc".to_string()));
    assert_eq!(text_of(Some(Vec::new())), Ok(String::new()));
    assert_eq!(text_of(Some(vec![0xff])), Err(RepoError::NotText));
    assert_eq!(text_of(None), Err(RepoError::CorruptHistory));
}

#[test]
fn parent_is_accepted_only_under_the_id_asked_for() {
    let good = accept_parent(&id(3), Some(record(3, vec![], None, 1))).unwrap();
    assert_eq!(good.id.bytes, id(3).bytes);
    assert_eq!(good.time, 1);
    let other = accept_parent(&id(3), Some(record(4, vec![], None, 1)));
    assert_eq!(other.unwrap_err(), RepoError::AttributionFailure);
    assert_eq!(accept_parent(&id(3), None).unwrap_err(), RepoError::AttributionFailure);
}

#[test]
fn commit_is_compared_with_its_first_parent_or_the_empty_tree() {
    let commit = record(9, vec![id(8), id(7)], None, 1);
    let parent = record(8, vec![], None, 0);
    let (old, new) = diff_sides(&commit, &Some(parent));
    assert_eq!(old.unwrap().bytes, id(108).bytes);
    assert_eq!(new.bytes, id(109).bytes);
    let root = record(1, vec![], None, 0);
    let (old, new) = diff_sides(&root, &None);
    assert!(old.is_none());
    assert_eq!(new.bytes, id(101).bytes);
}

#[test]
fn changes_come_from_the_differences_or_fail() {
    let deltas = vec![DeltaPaths { new_path: Some(b"a/b".to_vec()), old_path: None }];
    assert_eq!(changes_from(Some(deltas)), Ok(vec![comps(&["a", "b"])]));
    assert_eq!(changes_from(Some(Vec::new())), Ok(Vec::new()));
    assert_eq!(changes_from(None), Err(RepoError::AttributionFailure));
}

#[test]
fn walk_goes_on_until_complete_or_without_parent() {
    let mut state = Attributor::new(vec![comps(&["a"]), comps(&["b"])]);
    let next = state.next_commit(Some(record(2, vec![], None, 0)));
    assert_eq!(next.unwrap().id.bytes, id(2).bytes);
    assert!(state.next_commit(None).is_none());
    state.observe(&record(3, vec![id(2)], Some("x"), 1), &vec![comps(&["a"])]);
    let next = state.next_commit(Some(record(2, vec![], None, 0)));
    assert_eq!(next.unwrap().id.bytes, id(2).bytes);
    state.observe(&record(2, vec![id(1)], Some("y"), 1), &vec![comps(&["b", "c"])]);
    assert!(state.next_commit(Some(record(1, vec![], None, 0))).is_none());
    assert!(state.next_commit(None).is_none());
    let empty = Attributor::new(Vec::new());
    assert!(empty.next_commit(Some(record(1, vec![], None, 0))).is_none());
}

#[test]
fn single_attribution_is_the_one_found() {
    let one = vec![Attribution { message: "m".to_string(), timestamp: 4, commit: id(6) }];
    let got = single_attribution(Ok(one)).unwrap();
    assert_eq!(got.message, "m");
    assert_eq!(got.timestamp, 4);
    assert_eq!(got.commit.bytes, id(6).bytes);
    assert!(single_attribution(Ok(Vec::new())).is_none());
    assert!(single_attribution(Err(RepoError::AttributionFailure)).is_none());
}

#[test]
fn branch_update_names_reference_target_and_expected() {
    let update = branch_update("main", &id(2), &id(1), "edit");
    assert_eq!(update.reference, "refs/heads/main");
    assert_eq!(update.target.bytes, id(2).bytes);
    assert_eq!(update.expected.bytes, id(1).bytes);
    assert!(update.force);
    assert_eq!(update.log_message, "edit");
    assert_eq!(branch_update("a/b", &id(0), &id(0), "").reference, "refs/heads/a/b");
}

#[test]
fn advance_result_follows_what_the_store_said() {
    assert_eq!(advance_result(None), Ok(()));
    assert_eq!(advance_result(Some(true)), Err(RepoError::ConcurrentModification));
    assert_eq!(advance_result(Some(false)), Err(RepoError::RefUpdateFailed));
}

#[test]
fn edit_is_answered_with_its_confirmation_or_its_error() {
    let receipt = EditReceipt { commit: id(0x1f), tree: id(2), blob: id(3), parent: id(4) };
    let said = edit_answer("a/b.txt", "dev", Ok(receipt)).unwrap();
    assert_eq!(said, format!("Updated 'a/b.txt' in branch 'dev' with commit {}", "1f".repeat(20)));
    assert_eq!(edit_answer("a", "b", Err(RepoError::PathNotFound)), Err(RepoError::PathNotFound));
    assert_eq!(edit_answer("a", "b", Err(RepoError::WriteFailed)), Err(RepoError::WriteFailed));
}

#[test]
fn every_error_is_described_with_branch_and_path() {
    let d = |e: RepoError| e.describe("main", "src/a.rs");
    assert_eq!(d(RepoError::RepositoryUnavailable), "Error opening repo");
    assert_eq!(d(RepoError::BranchNotFound), "Branch 'main' not found");
    assert_eq!(d(RepoError::CorruptHistory), "Failed to resolve commit for 'main'");
    assert_eq!(d(RepoError::PathNotFound), "Path 'src/a.rs' not found in branch 'main'");
    assert_eq!(d(RepoError::WrongKind), "Path 'src/a.rs' is not of the kind asked for");
    assert_eq!(d(RepoError::NotText), "File is not valid UTF-8");
    assert_eq!(d(RepoError::AttributionFailure), "No commit found for an entry of 'src/a.rs'");
    assert_eq!(d(RepoError::WriteFailed), "Failed to write 'src/a.rs'");
    assert_eq!(d(RepoError::RefUpdateFailed), "Failed to update branch 'main'");
    assert_eq!(d(RepoError::ConcurrentModification), "Branch 'main' was modified concurrently");
    assert_eq!(RepoError::BranchNotFound.describe("", ""), "Branch '' not found");
}

#[test]
fn catalog_lists_local_branches() {
    assert_eq!(catalog_scope(), BranchScope::Local);
    assert_ne!(catalog_scope(), BranchScope::All);
    assert_ne!(catalog_scope(), BranchScope::Remote);
}

#[test]
fn catalog_comes_from_what_the_store_listed() {
    let listed = vec![Some("main".to_string()), None, Some("dev".to_string())];
    assert_eq!(catalog_of(Ok(listed)).unwrap(), vec!["main".to_string(), "dev".to_string()]);
    assert_eq!(catalog_of(Ok(Vec::new())).unwrap(), Vec::<String>::new());
    let failure = catalog_of(Err("no refs".to_string())).unwrap_err();
    assert_eq!(failure.error, RepoError::RepositoryUnavailable);
    assert_eq!(failure.detail, "no refs");
}

#[test]
fn receipt_update_goes_from_the_old_head_to_the_new_commit() {
    let receipt = EditReceipt { commit: id(9), tree: id(2), blob: id(3), parent: id(8) };
    let update = receipt_update("main", &receipt, "edit");
    assert_eq!(update.reference, "refs/heads/main");
    assert_eq!(update.target.bytes, id(9).bytes);
    assert_eq!(update.expected.bytes, id(8).bytes);
    assert!(update.force);
    assert_eq!(update.log_message, "edit");
}

#[test]
fn failures_carry_what_they_are_about() {
    let plain = Failure::plain(RepoError::WrongKind);
    assert_eq!(plain.error, RepoError::WrongKind);
    assert_eq!(plain.detail, "");
    assert_eq!(plain.describe("main", "a/b"), "Path 'a/b' is not of the kind asked for");
    let closed = Failure::unavailable("could not find repository".to_string());
    assert_eq!(closed.error, RepoError::RepositoryUnavailable);
    assert_eq!(closed.detail, "could not find repository");
    assert_eq!(closed.describe("main", "a"), "Error opening repo: could not find repository");
    let lost = Failure::unaccounted("src/void".to_string());
    assert_eq!(lost.error, RepoError::AttributionFailure);
    assert_eq!(lost.detail, "src/void");
    assert_eq!(lost.describe("main", "src"), "No commit found for file: src/void");
    let gone = Failure::plain(RepoError::BranchNotFound);
    assert_eq!(gone.describe("dev", "x"), "Branch 'dev' not found");
}

#[test]
fn entry_path_is_directory_slash_name() {
    assert_eq!(entry_path("", "a.txt"), "a.txt");
    assert_eq!(entry_path("/", "a.txt"), "a.txt");
    assert_eq!(entry_path("src", "a.txt"), "src/a.txt");
    assert_eq!(entry_path("src/", "a.txt"), "src/a.txt");
    assert_eq!(entry_path("src/lib", "util.rs"), "src/lib/util.rs");
    assert_eq!(entry_path("gr\u{fc}n", "x"), "gr\u{fc}n/x");
}

#[test]
fn first_missing_is_the_first_entry_without_a_commit() {
    let mut state = Attributor::new(vec![comps(&["a"]), comps(&["b"]), comps(&["c"])]);
    assert_eq!(state.first_missing(), Some(0));
    state.observe(&record(3, vec![], Some("x"), 1), &vec![comps(&["a"]), comps(&["c"])]);
    assert_eq!(state.first_missing(), Some(1));
    state.observe(&record(2, vec![], Some("y"), 1), &vec![comps(&["b"])]);
    assert_eq!(state.first_missing(), None);
    assert_eq!(Attributor::new(Vec::new()).first_missing(), None);
}

#[test]
fn answer_keeps_the_text_or_the_kind_of_failure() {
    assert_eq!(answer_of(Ok("text".to_string())).unwrap(), "text");
    let failure = answer_of(Err(RepoError::NotText)).unwrap_err();
    assert_eq!(failure.error, RepoError::NotText);
    assert_eq!(failure.detail, "");
}
