//! Tests of the directory-first path ordering, the sort, and the verified
//! text helpers, on concrete values.

use core::cmp::Ordering;
use gittree::ids::{CommitId, ObjectId};
use gittree::text::{join_path, push_decimal, render_commit_line};
use gittree::paths::path_cmp;
use gittree::tree::{sort_file_list, TreeFile};

fn file_list(paths: &[&str]) -> Vec<TreeFile> {
    paths
        .iter()
        .map(|f| TreeFile::new(f.to_string(), 0, ObjectId::zero()))
        .collect()
}

fn paths_of(list: &[TreeFile]) -> Vec<String> {
    list.iter().map(|f| f.path.clone()).collect()
}

#[test]
fn test_sorting() {
    let mut list = file_list(&["file", "folder/file", "folder/afile"]);

    sort_file_list(&mut list);

    assert_eq!(
        paths_of(&list),
        vec![
            String::from("folder/afile"),
            String::from("folder/file"),
            String::from("file"),
        ]
    );
}

#[test]
fn test_sorting_folders() {
    let mut list = file_list(&["bfolder/file", "afolder/file"]);

    sort_file_list(&mut list);

    assert_eq!(
        paths_of(&list),
        vec![String::from("afolder/file"), String::from("bfolder/file")]
    );
}

#[test]
fn test_sorting_folders2() {
    let mut list = file_list(&["bfolder/sub/file", "afolder/file"]);

    sort_file_list(&mut list);

    assert_eq!(
        paths_of(&list),
        vec![String::from("afolder/file"), String::from("bfolder/sub/file")]
    );
}

#[test]
fn test_path_cmp() {
    assert_eq!(
        path_cmp("bfolder/sub/file", "afolder/file"),
        Ordering::Greater
    );
}

#[test]
fn test_path_file_cmp() {
    assert_eq!(path_cmp("a", "afolder/file"), Ordering::Greater);
}

#[test]
fn path_cmp_equal_and_prefixes() {
    assert_eq!(path_cmp("folder/file", "folder/file"), Ordering::Equal);
    assert_eq!(path_cmp("folder/afile", "folder/file"), Ordering::Less);
    assert_eq!(path_cmp("folder/file", "file"), Ordering::Less);
    assert_eq!(path_cmp("afolder/file", "bfolder/sub/file"), Ordering::Less);
}

#[test]
fn sorting_keeps_every_entry_once() {
    let mut list = file_list(&["b", "folder/z", "a", "folder/a", "a"]);

    sort_file_list(&mut list);

    assert_eq!(
        paths_of(&list),
        vec![
            String::from("folder/a"),
            String::from("folder/z"),
            String::from("a"),
            String::from("a"),
            String::from("b"),
        ]
    );
}

#[test]
fn join_path_inserts_separator() {
    assert_eq!(join_path("./", "test.txt"), String::from("./test.txt"));
    assert_eq!(join_path("./folder", "file"), String::from("./folder/file"));
    assert_eq!(join_path("", "file"), String::from("/file"));
}

#[test]
fn short_string_is_seven_hex_chars() {
    let id = CommitId::new(vec![0xab, 0xcd, 0xef, 0x12, 0x34]);
    assert_eq!(id.get_short_string(), String::from("abcdef1"));
    let small = CommitId::new(vec![0x0f, 0xa0]);
    assert_eq!(small.get_short_string(), String::from("0fa0"));
}

#[test]
fn decimal_rendering_is_exact() {
    let mut s = String::from("commits: ");
    push_decimal(&mut s, 1000);
    assert_eq!(s, String::from("commits: 1000"));
    let mut z = String::new();
    push_decimal(&mut z, 0);
    assert_eq!(z, String::from("0"));
}

#[test]
fn commit_line_rendering_is_exact() {
    let parents = vec![String::from("p1"), String::from("p2")];
    assert_eq!(
        render_commit_line("abc1234", &parents, "msg"),
        String::from("abc1234 ([\"p1\", \"p2\"]) msg")
    );
    let none: Vec<String> = Vec::new();
    assert_eq!(
        render_commit_line("abc1234", &none, "msg"),
        String::from("abc1234 ([]) msg")
    );
}
