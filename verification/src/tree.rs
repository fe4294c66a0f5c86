//! Listing the files of a commit's snapshot, sorted directory-first, and
//! fetching the text content of a listed file.

use vstd::prelude::*;
use vstd::seq_lib::lemma_multiset_commutative;
use vstd::utf8::{encode_utf8, valid_utf8};
use crate::error::RepoError;
use crate::gitio::{
    blob_content, blob_is_binary, bytes_to_string, bytes_to_string_lossy, commit_tree_id,
    find_blob, find_commit, find_tree, lossy_decode, repo_open, tree_entry_at, tree_len,
    EntryKind, RawEntry,
};
use crate::ids::{CommitId, ObjectId};
use crate::paths::{lemma_path_le_total, lemma_path_le_trans, path_cmp, path_le};
use crate::text::{join_chars, join_path};

verus! {

broadcast use vstd::seq_lib::group_to_multiset_ensures, vstd::multiset::group_multiset_axioms;

/// One file found in a commit's snapshot.
#[derive(Debug, PartialEq, Clone)]
pub struct TreeFile {
    /// the slash-separated path of the file, rooted at `./`
    pub path: String,
    /// the unix filemode recorded by the tree entry
    pub filemode: i32,
    /// the id of the content object; only meant to enable content lookup
    pub id: ObjectId,
}

impl TreeFile {
    /// A file entry over the given path, filemode and content object id.
    pub fn new(path: String, filemode: i32, id: ObjectId) -> (r: TreeFile)
        ensures
            r.path == path,
            r.filemode == filemode,
            r.id == id,
    {
        TreeFile { path, filemode, id }
    }
}

/// A path that is rooted at the `./` sentinel.
pub open spec fn rooted_path(s: Seq<char>) -> bool {
    s.len() >= 2 && s[0] == '.' && s[1] == '/'
}

/// The file list is sorted in the directory-first path order.
pub open spec fn file_list_sorted(s: Seq<TreeFile>) -> bool {
    forall|i: int, j: int| 0 <= i < j < s.len() ==> path_le(s[i].path@, s[j].path@)
}

/// `a` sorts no later than `b`.
fn file_le(a: &TreeFile, b: &TreeFile) -> (r: bool)
    ensures
        r == path_le(a.path@, b.path@),
{
    match path_cmp(a.path.as_str(), b.path.as_str()) {
        core::cmp::Ordering::Greater => false,
        _ => true,
    }
}

/// Inserting an element anywhere in a sequence inserts it into the
/// sequence's multiset.
proof fn lemma_insert_to_multiset<A>(s: Seq<A>, j: int, x: A)
    requires
        0 <= j <= s.len(),
    ensures
        s.insert(j, x).to_multiset() == s.to_multiset().insert(x),
{
    assert(s.insert(j, x) =~= s.take(j).push(x) + s.skip(j));
    lemma_multiset_commutative(s.take(j).push(x), s.skip(j));
    assert(s.take(j).push(x).to_multiset() =~= s.take(j).to_multiset().insert(x));
    assert(s =~= s.take(j) + s.skip(j));
    lemma_multiset_commutative(s.take(j), s.skip(j));
    assert(s.take(j).to_multiset().insert(x).add(s.skip(j).to_multiset())
        =~= s.take(j).to_multiset().add(s.skip(j).to_multiset()).insert(x));
}

/// Sorts the list in place in the directory-first path order; the result
/// holds exactly the elements given.
pub fn sort_file_list(files: &mut Vec<TreeFile>)
    ensures
        file_list_sorted(final(files)@),
        final(files)@.to_multiset() == old(files)@.to_multiset(),
        final(files)@.len() == old(files)@.len(),
{
    let ghost orig = files@;
    let mut i: usize = 0;
    while i < files.len()
        invariant
            i <= files@.len(),
            files@.to_multiset() == orig.to_multiset(),
            file_list_sorted(files@.subrange(0, i as int)),
        decreases files@.len() - i,
    {
        let ghost s = files@;
        let mut j: usize = 0;
        while j < i && file_le(&files[j], &files[i])
            invariant
                j <= i < files@.len(),
                files@ == s,
                forall|k: int| 0 <= k < j ==> path_le(s[k].path@, s[i as int].path@),
            decreases i - j,
        {
            j = j + 1;
        }
        if j < i {
            proof {
                lemma_path_le_total(s[i as int].path@, s[j as int].path@);
            }
            let x = files.remove(i);
            files.insert(j, x);
            proof {
                let t = files@;
                assert(t =~= s.remove(i as int).insert(j as int, s[i as int]));
                lemma_insert_to_multiset(s.remove(i as int), j as int, s[i as int]);
                assert(s.to_multiset().remove(s[i as int]).insert(s[i as int])
                    =~= s.to_multiset());
                assert(files@.to_multiset() == orig.to_multiset());
                assert forall|p: int, q: int| 0 <= p < q < i + 1 implies path_le(
                    t[p].path@,
                    t[q].path@,
                ) by {
                    if q < j {
                        assert(t[p] == s[p] && t[q] == s[q]);
                    } else if q == j {
                        assert(t[p] == s[p] && t[q] == s[i as int]);
                    } else if p < j {
                        assert(t[p] == s[p] && t[q] == s[q - 1]);
                    } else if p == j {
                        assert(t[p] == s[i as int] && t[q] == s[q - 1]);
                        assert(path_le(s[i as int].path@, s[j as int].path@));
                        if q - 1 > j {
                            let pre = s.subrange(0, i as int);
                            assert(pre[j as int] == s[j as int]);
                            assert(pre[q - 1] == s[q - 1]);
                            assert(path_le(pre[j as int].path@, pre[q - 1].path@));
                            assert(path_le(s[j as int].path@, s[q - 1].path@));
                            lemma_path_le_trans(
                                s[i as int].path@,
                                s[j as int].path@,
                                s[q - 1].path@,
                            );
                        }
                    } else {
                        assert(t[p] == s[p - 1] && t[q] == s[q - 1]);
                    }
                }
                assert(file_list_sorted(files@.subrange(0, i + 1)));
            }
        } else {
            proof {
                assert(file_list_sorted(files@.subrange(0, i + 1)));
            }
        }
        i = i + 1;
    }
    proof {
        assert(files@.subrange(0, files@.len() as int) =~= files@);
        assert(files@.to_multiset().len() == files@.len());
        assert(orig.to_multiset().len() == orig.len());
    }
}

/// Decides what content lookup returns once the engine has classified and
/// produced the blob's bytes: a binary blob is rejected, text is decoded
/// with lossy UTF-8 replacement.
pub fn blob_to_text(is_binary: bool, content: &Vec<u8>) -> (r: Result<String, RepoError>)
    ensures
        is_binary ==> (r matches Err(e) && e is BinaryFile),
        !is_binary ==> (r matches Ok(s) && s@ == lossy_decode(content@)),
{
    if is_binary {
        Err(RepoError::BinaryFile)
    } else {
        Ok(bytes_to_string_lossy(content))
    }
}

/// Fetches the content of a listed file as text, rejecting binary blobs.
/// The decision over the engine's classification and bytes is fixed by
/// `blob_to_text`: a failure is either an engine error (open or lookup) or
/// the distinguished binary-content condition, never another kind.
pub fn tree_file_content(repo_path: &str, file: &TreeFile) -> (r: Result<String, RepoError>)
    ensures
        r matches Err(e) ==> (e is Git || e is BinaryFile),
{
    let repo = match repo_open(repo_path) {
        Ok(r) => r,
        Err(e) => {
            return Err(RepoError::Git(e));
        },
    };
    let blob = match find_blob(&repo, &file.id) {
        Ok(b) => b,
        Err(e) => {
            return Err(RepoError::Git(e));
        },
    };
    let is_binary = blob_is_binary(&blob);
    let content = blob_content(&blob);
    blob_to_text(is_binary, &content)
}

/// `path` is `prefix` joined with some text whose UTF-8 encoding is
/// `name_bytes` (the decoding is unique, since UTF-8 encoding is injective).
pub open spec fn joined_entry_path(
    prefix: Seq<char>,
    name_bytes: Seq<u8>,
    path: Seq<char>,
) -> bool {
    exists|nm: Seq<char>| #[trigger] encode_utf8(nm) == name_bytes && path == join_chars(
        prefix,
        nm,
    )
}

/// A path joined under a `./`-rooted prefix is itself `./`-rooted.
proof fn lemma_joined_rooted(prefix: Seq<char>, name_bytes: Seq<u8>, path: Seq<char>)
    requires
        rooted_path(prefix),
        joined_entry_path(prefix, name_bytes, path),
    ensures
        rooted_path(path),
{
    let nm = choose|nm: Seq<char>|
        #[trigger] encode_utf8(nm) == name_bytes && path == join_chars(prefix, nm);
    assert(path == join_chars(prefix, nm));
}

/// Applies one raw tree entry to the traversal state: a blob entry appends
/// one file under the joined path, with the entry's filemode and id; a tree
/// entry schedules its subtree under the joined path; any other kind changes
/// nothing; an entry name that is not valid UTF-8 aborts with `Decode` and
/// changes nothing.
fn step_entry(
    prefix: &str,
    e: RawEntry,
    files: &mut Vec<TreeFile>,
    stack: &mut Vec<(String, ObjectId)>,
) -> (r: Result<(), RepoError>)
    ensures
        r is Ok <==> valid_utf8(e.name@),
        r matches Err(err) ==> {
            &&& err is Decode
            &&& final(files)@ == old(files)@
            &&& final(stack)@ == old(stack)@
        },
        (r is Ok && e.kind is Blob) ==> {
            &&& final(stack)@ == old(stack)@
            &&& final(files)@.len() == old(files)@.len() + 1
            &&& final(files)@.drop_last() == old(files)@
            &&& final(files)@.last().filemode == e.filemode
            &&& final(files)@.last().id == e.id
            &&& joined_entry_path(prefix@, e.name@, final(files)@.last().path@)
        },
        (r is Ok && e.kind is Tree) ==> {
            &&& final(files)@ == old(files)@
            &&& final(stack)@.len() == old(stack)@.len() + 1
            &&& final(stack)@.drop_last() == old(stack)@
            &&& final(stack)@.last().1 == e.id
            &&& joined_entry_path(prefix@, e.name@, final(stack)@.last().0@)
        },
        (r is Ok && e.kind is Other) ==> {
            &&& final(files)@ == old(files)@
            &&& final(stack)@ == old(stack)@
        },
{
    let RawEntry { name, kind, filemode, id } = e;
    let text = match bytes_to_string(name) {
        Some(s) => s,
        None => {
            return Err(RepoError::Decode);
        },
    };
    let path = join_path(prefix, text.as_str());
    proof {
        assert(encode_utf8(text@) == e.name@);
        assert(path@ == join_chars(prefix@, text@));
    }
    match kind {
        EntryKind::Blob => {
            let ghost before = files@;
            files.push(TreeFile { path, filemode, id });
            proof {
                assert(files@.drop_last() =~= before);
                assert(joined_entry_path(prefix@, e.name@, files@.last().path@));
            }
        },
        EntryKind::Tree => {
            let ghost before = stack@;
            stack.push((path, id));
            proof {
                assert(stack@.drop_last() =~= before);
                assert(joined_entry_path(prefix@, e.name@, stack@.last().0@));
            }
        },
        EntryKind::Other => {},
    }
    Ok(())
}

/// Lists all files reachable from the snapshot of `commit`, one entry per
/// blob, sorted in the directory-first path order, each path rooted at `./`.
/// Each blob entry the engine reports contributes exactly one `TreeFile`,
/// built as `step_entry` states; a failure is an engine error, an entry name
/// that is not valid text, or the walk bound.
pub fn tree_files(repo_path: &str, commit: CommitId) -> (r: Result<Vec<TreeFile>, RepoError>)
    ensures
        r matches Ok(files) ==> file_list_sorted(files@),
        r matches Ok(files) ==> forall|k: int|
            0 <= k < files@.len() ==> rooted_path(#[trigger] files@[k].path@),
        r matches Err(e) ==> (e is Git || e is Decode || e is WalkLimit),
{
    let repo = match repo_open(repo_path) {
        Ok(r) => r,
        Err(e) => {
            return Err(RepoError::Git(e));
        },
    };
    let c = match find_commit(&repo, &commit) {
        Ok(c) => c,
        Err(e) => {
            return Err(RepoError::Git(e));
        },
    };
    let root = commit_tree_id(&c);
    let mut files: Vec<TreeFile> = Vec::new();
    let mut stack: Vec<(String, ObjectId)> = Vec::new();
    let root_path = String::from_str("./");
    proof {
        reveal_strlit("./");
    }
    stack.push((root_path, root));
    let mut fuel: usize = usize::MAX;
    while stack.len() > 0 && fuel > 0
        invariant
            forall|k: int| 0 <= k < files@.len() ==> rooted_path(#[trigger] files@[k].path@),
            forall|k: int| 0 <= k < stack@.len() ==> rooted_path(#[trigger] stack@[k].0@),
        decreases fuel,
    {
        fuel = fuel - 1;
        let (prefix, tid) = match stack.pop() {
            Some(top) => top,
            None => {
                break;
            },
        };
        let tree = match find_tree(&repo, &tid) {
            Ok(t) => t,
            Err(e) => {
                return Err(RepoError::Git(e));
            },
        };
        let n: usize = tree_len(&tree);
        files.reserve(n);
        let mut k: usize = 0;
        while k < n
            invariant
                rooted_path(prefix@),
                forall|m: int| 0 <= m < files@.len() ==> rooted_path(#[trigger] files@[m].path@),
                forall|m: int| 0 <= m < stack@.len() ==> rooted_path(#[trigger] stack@[m].0@),
            decreases n - k,
        {
            match tree_entry_at(&tree, k) {
                None => {},
                Some(e) => {
                    let ghost name_bytes = e.name@;
                    let ghost kind = e.kind;
                    let ghost files0 = files@;
                    let ghost stack0 = stack@;
                    match step_entry(prefix.as_str(), e, &mut files, &mut stack) {
                        Ok(()) => {
                            proof {
                                if kind is Blob {
                                    assert forall|m: int| 0 <= m < files@.len() implies
                                        rooted_path(#[trigger] files@[m].path@) by {
                                        if m < files@.len() - 1 {
                                            assert(files@[m] == files@.drop_last()[m]);
                                        } else {
                                            assert(files@[m] == files@.last());
                                            lemma_joined_rooted(
                                                prefix@,
                                                name_bytes,
                                                files@[m].path@,
                                            );
                                        }
                                    }
                                }
                                if kind is Tree {
                                    assert forall|m: int| 0 <= m < stack@.len() implies
                                        rooted_path(#[trigger] stack@[m].0@) by {
                                        if m < stack@.len() - 1 {
                                            assert(stack@[m] == stack@.drop_last()[m]);
                                        } else {
                                            assert(stack@[m] == stack@.last());
                                            lemma_joined_rooted(
                                                prefix@,
                                                name_bytes,
                                                stack@[m].0@,
                                            );
                                        }
                                    }
                                }
                            }
                        },
                        Err(err) => {
                            return Err(err);
                        },
                    }
                },
            }
            k = k + 1;
        }
    }
    if stack.len() > 0 {
        return Err(RepoError::WalkLimit);
    }
    let ghost before = files@;
    sort_file_list(&mut files);
    proof {
        assert forall|k: int| 0 <= k < files@.len() implies rooted_path(
            #[trigger] files@[k].path@,
        ) by {
            assert(files@.to_multiset().contains(files@[k]));
            assert(before.to_multiset().contains(files@[k]));
            assert(before.contains(files@[k]));
        }
    }
    Ok(files)
}

} // verus!
