//! Tests against real repositories: listing, content lookup, and the
//! commit-graph walk.

use git2::{Repository, Signature, Time};
use gittree::error::RepoError;
use gittree::ids::CommitId;
use gittree::tree::{blob_to_text, tree_file_content, tree_files};
use gittree::walk::{commit_graph_lines, print_tree_lines, LogWalkerCfg, RefScope};
use tempfile::TempDir;

fn repo_init() -> (TempDir, Repository) {
    let td = TempDir::new().unwrap();
    let repo = Repository::init(td.path()).unwrap();
    {
        let mut config = repo.config().unwrap();
        config.set_str("user.name", "name").unwrap();
        config.set_str("user.email", "email").unwrap();
    }
    (td, repo)
}

fn head_parents(repo: &Repository) -> Vec<git2::Commit<'_>> {
    match repo.head() {
        Ok(h) => vec![h.peel_to_commit().unwrap()],
        Err(_) => Vec::new(),
    }
}

fn commit_tree(repo: &Repository, tree_oid: git2::Oid, msg: &str, secs: i64) -> git2::Oid {
    let tree = repo.find_tree(tree_oid).unwrap();
    let sig = Signature::new("name", "email", &Time::new(secs, 0)).unwrap();
    let parents = head_parents(repo);
    let parent_refs: Vec<&git2::Commit> = parents.iter().collect();
    repo.commit(Some("HEAD"), &sig, &sig, msg, &tree, &parent_refs)
        .unwrap()
}

fn write_commit_bytes(repo: &Repository, file: &str, content: &[u8], msg: &str) -> CommitId {
    let blob_oid = repo.blob(content).unwrap();
    let mut tb = repo.treebuilder(None).unwrap();
    tb.insert(file, blob_oid, 0o100_644).unwrap();
    let tree_oid = tb.write().unwrap();
    let oid = commit_tree(repo, tree_oid, msg, 0);
    CommitId::new(oid.as_bytes().to_vec())
}

fn write_commit_file(repo: &Repository, file: &str, content: &str, msg: &str) -> CommitId {
    write_commit_bytes(repo, file, content.as_bytes(), msg)
}

fn commit_at(repo: &Repository, msg: &str, secs: i64) -> git2::Oid {
    let tree_oid = repo.treebuilder(None).unwrap().write().unwrap();
    commit_tree(repo, tree_oid, msg, secs)
}

fn create_branch(repo: &Repository, name: &str) {
    let head = repo.head().unwrap().peel_to_commit().unwrap();
    repo.branch(name, &head, false).unwrap();
    let refname = format!("refs/heads/{}", name);
    repo.set_head(&refname).unwrap();
}

fn checkout_branch(repo: &Repository, name: &str) {
    let refname = format!("refs/heads/{}", name);
    repo.set_head(&refname).unwrap();
}

#[test]
fn tree_test_smoke() {
    let (td, repo) = repo_init();
    let repo_path = td.path().to_str().unwrap();

    let c1 = write_commit_file(&repo, "test.txt", "content", "c1");

    let files = tree_files(repo_path, c1).unwrap();

    assert_eq!(files.len(), 1);
    assert_eq!(files[0].path, "./test.txt");

    let c2 = write_commit_file(&repo, "test.txt", "content2", "c2");

    let content = tree_file_content(repo_path, &files[0]).unwrap();
    assert_eq!(&content, "content");

    let files_c2 = tree_files(repo_path, c2).unwrap();

    assert_eq!(files_c2.len(), 1);
    assert_ne!(files_c2[0], files[0]);
}

#[test]
fn nested_listing_is_sorted() {
    let (td, repo) = repo_init();
    let repo_path = td.path().to_str().unwrap();

    let file_blob = repo.blob(b"x").unwrap();
    let mut sub = repo.treebuilder(None).unwrap();
    sub.insert("afile", file_blob, 0o100_644).unwrap();
    sub.insert("file", file_blob, 0o100_644).unwrap();
    let sub_oid = sub.write().unwrap();
    let mut top = repo.treebuilder(None).unwrap();
    top.insert("file", file_blob, 0o100_644).unwrap();
    top.insert("folder", sub_oid, 0o040_000).unwrap();
    let top_oid = top.write().unwrap();
    let cid = CommitId::new(commit_tree(&repo, top_oid, "c1", 0).as_bytes().to_vec());

    let files = tree_files(repo_path, cid).unwrap();
    let paths: Vec<&str> = files.iter().map(|f| f.path.as_str()).collect();
    assert_eq!(paths, vec!["./folder/afile", "./folder/file", "./file"]);
}

#[test]
fn binary_blob_content_is_rejected() {
    let (td, repo) = repo_init();
    let repo_path = td.path().to_str().unwrap();

    let cid = write_commit_bytes(&repo, "bin.dat", &[0u8, 1, 2, 0, 255], "c1");
    let files = tree_files(repo_path, cid).unwrap();
    assert_eq!(files.len(), 1);

    let err = tree_file_content(repo_path, &files[0]).unwrap_err();
    assert!(matches!(err, RepoError::BinaryFile));
}

#[test]
fn blob_to_text_decides_by_classification() {
    let bytes = vec![104u8, 105];
    let err = blob_to_text(true, &bytes).unwrap_err();
    assert!(matches!(err, RepoError::BinaryFile));
    assert_eq!(blob_to_text(false, &bytes).unwrap(), "hi");
    let invalid = vec![104u8, 0xff];
    assert_eq!(blob_to_text(false, &invalid).unwrap(), "h\u{fffd}");
}

#[test]
fn undecodable_entry_name_fails_listing() {
    let (td, repo) = repo_init();
    let repo_path = td.path().to_str().unwrap();

    let blob_oid = repo.blob(b"x").unwrap();
    let mut tb = repo.treebuilder(None).unwrap();
    let bad_name: &[u8] = &[0xffu8, 0xfe, 0x61];
    tb.insert(bad_name, blob_oid, 0o100_644).unwrap();
    let tree_oid = tb.write().unwrap();
    let cid = CommitId::new(commit_tree(&repo, tree_oid, "c1", 0).as_bytes().to_vec());

    let err = tree_files(repo_path, cid).unwrap_err();
    assert!(matches!(err, RepoError::Decode));
}

#[test]
fn unknown_repository_fails_with_engine_error() {
    let err = tree_files("no-such-repository-here", CommitId::new(vec![0u8; 20])).unwrap_err();
    assert!(matches!(err, RepoError::Git(_)));
}

#[test]
fn treewalk_test_smoke() {
    let (td, repo) = repo_init();
    let path = td.path().to_str().unwrap();

    let _c1 = commit_at(&repo, "c1", 0);

    create_branch(&repo, "b1");

    let _c2 = commit_at(&repo, "c2", 1);

    create_branch(&repo, "b2");

    let _c3 = commit_at(&repo, "c3", 2);

    checkout_branch(&repo, "b1");

    let _c4 = commit_at(&repo, "c4", 3);

    print_tree_lines(path).unwrap();
}

#[test]
fn walk_scope_and_bound() {
    let (td, repo) = repo_init();
    let path = td.path().to_str().unwrap();

    let _c1 = commit_at(&repo, "c1", 0);
    create_branch(&repo, "b1");
    let _c2 = commit_at(&repo, "c2", 1);
    create_branch(&repo, "b2");
    let _c3 = commit_at(&repo, "c3", 2);
    checkout_branch(&repo, "b1");
    let _c4 = commit_at(&repo, "c4", 3);

    // Checked-out reference only: c4, c2, c1.
    let cfg = LogWalkerCfg { max_count: 1000, scope: RefScope::CurrentOnly };
    let lines = commit_graph_lines(path, &cfg).unwrap();
    assert_eq!(lines.len(), 4);
    assert_eq!(lines[0], "commits: 3");

    // Every reference: c4, c3, c2, c1.
    let all = LogWalkerCfg { max_count: 1000, scope: RefScope::AllReferences };
    let lines_all = commit_graph_lines(path, &all).unwrap();
    assert_eq!(lines_all.len(), 5);
    assert_eq!(lines_all[0], "commits: 4");

    // The bound caps the walk.
    let capped = LogWalkerCfg { max_count: 2, scope: RefScope::AllReferences };
    let lines_capped = commit_graph_lines(path, &capped).unwrap();
    assert_eq!(lines_capped.len(), 3);
    assert_eq!(lines_capped[0], "commits: 2");
}

#[test]
fn undecodable_message_fails_walk() {
    let (td, repo) = repo_init();
    let path = td.path().to_str().unwrap();

    let tree_oid = repo.treebuilder(None).unwrap().write().unwrap();
    let mut raw: Vec<u8> = Vec::new();
    raw.extend_from_slice(format!("tree {}\n", tree_oid).as_bytes());
    raw.extend_from_slice(b"author name <email> 0 +0000\n");
    raw.extend_from_slice(b"committer name <email> 0 +0000\n\n");
    raw.extend_from_slice(&[0xff, 0xfe]);
    let odb = repo.odb().unwrap();
    let oid = odb.write(git2::ObjectType::Commit, &raw).unwrap();
    repo.reference("refs/heads/bad", oid, true, "test").unwrap();
    repo.set_head("refs/heads/bad").unwrap();

    let err = print_tree_lines(path).unwrap_err();
    assert!(matches!(err, RepoError::MissingMessage));
}

#[test]
fn walk_lines_show_parents_and_message() {
    let (td, repo) = repo_init();
    let path = td.path().to_str().unwrap();

    let c1 = commit_at(&repo, "first", 0);
    let c2 = commit_at(&repo, "second", 1);

    let lines = print_tree_lines(path).unwrap();
    assert_eq!(lines.len(), 3);
    assert_eq!(lines[0], "commits: 2");

    let c1_short: String = c1.to_string().chars().take(7).collect();
    let c2_short: String = c2.to_string().chars().take(7).collect();
    assert_eq!(lines[1], format!("{} ([\"{}\"]) second", c2_short, c1_short));
    assert_eq!(lines[2], format!("{} ([]) first", c1_short));
}
