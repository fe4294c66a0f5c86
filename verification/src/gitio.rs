//! The trusted boundary to the version-control engine (git2) and to the two
//! std text conversions that vstd gives no specification. Every item here is
//! believed, not proved; each doc comment names the outside function relied
//! on. All results that depend on repository state are stated only as far as
//! the engine's documentation promises.

use vstd::prelude::*;
use vstd::utf8::{encode_utf8, valid_utf8};
use crate::ids::{CommitId, ObjectId};

verus! {

#[verifier::external_type_specification]
#[verifier::external_body]
pub struct ExGitError(git2::Error);

#[verifier::external_type_specification]
#[verifier::external_body]
pub struct ExRepository(git2::Repository);

#[verifier::external_type_specification]
#[verifier::external_body]
pub struct ExCommit<'a>(git2::Commit<'a>);

#[verifier::external_type_specification]
#[verifier::external_body]
pub struct ExTree<'a>(git2::Tree<'a>);

#[verifier::external_type_specification]
#[verifier::external_body]
pub struct ExBlob<'a>(git2::Blob<'a>);

#[verifier::external_type_specification]
#[verifier::external_body]
pub struct ExRevwalk<'a>(git2::Revwalk<'a>);

#[verifier::external_type_specification]
#[verifier::external_body]
pub struct ExOid(git2::Oid);

/// One tree entry, with its fields taken apart into plain values.
pub struct RawEntry {
    /// the entry name, as raw bytes
    pub name: Vec<u8>,
    /// what kind of object the entry refers to
    pub kind: EntryKind,
    /// the unix filemode recorded for the entry
    pub filemode: i32,
    /// the id of the object the entry refers to
    pub id: ObjectId,
}

/// The kind of object a tree entry refers to.
#[derive(Clone, Copy, PartialEq, Eq, Structural, Debug)]
pub enum EntryKind {
    /// a file
    Blob,
    /// a directory
    Tree,
    /// anything else (submodule-like entries)
    Other,
}

/// Relies on `git2::Repository::open`: opens the repository at a path.
#[verifier::external_body]
pub(crate) fn repo_open(path: &str) -> (r: Result<git2::Repository, git2::Error>) {
    git2::Repository::open(path)
}

/// Relies on `git2::Repository::find_commit` (and `git2::Oid::from_bytes`
/// to convert the raw id, which fails on ids that are not 20 bytes).
#[verifier::external_body]
pub(crate) fn find_commit<'r>(repo: &'r git2::Repository, id: &CommitId) -> (r: Result<
    git2::Commit<'r>,
    git2::Error,
>) {
    let oid = git2::Oid::from_bytes(&id.bytes)?;
    repo.find_commit(oid)
}

/// Relies on `git2::Commit::tree_id`: the id of the commit's root tree,
/// which is always a 20-byte object id.
#[verifier::external_body]
pub(crate) fn commit_tree_id(c: &git2::Commit) -> (r: ObjectId)
    ensures
        r.bytes@.len() == 20,
{
    ObjectId { bytes: c.tree_id().as_bytes().to_vec() }
}

/// Relies on `git2::Commit::parent_count`.
#[verifier::external_body]
pub(crate) fn commit_parent_count(c: &git2::Commit) -> usize {
    c.parent_count()
}

/// Relies on `git2::Commit::parent_id`: the id of the i-th parent, a 20-byte
/// object id when it exists.
#[verifier::external_body]
pub(crate) fn commit_parent_id(c: &git2::Commit, i: usize) -> (r: Result<
    CommitId,
    git2::Error,
>)
    ensures
        r is Ok ==> r.unwrap().bytes@.len() == 20,
{
    c.parent_id(i).map(|o| CommitId { bytes: o.as_bytes().to_vec() })
}

/// Relies on `git2::Commit::message`: the commit message, when it is valid
/// UTF-8 (None where the engine reports it undecodable).
#[verifier::external_body]
pub(crate) fn commit_message(c: &git2::Commit) -> Option<String> {
    match c.message() {
        Ok(m) => Some(m.to_string()),
        Err(_) => None,
    }
}

/// Relies on `git2::Repository::find_tree` (and `git2::Oid::from_bytes`).
#[verifier::external_body]
pub(crate) fn find_tree<'r>(repo: &'r git2::Repository, id: &ObjectId) -> (r: Result<
    git2::Tree<'r>,
    git2::Error,
>) {
    let oid = git2::Oid::from_bytes(&id.bytes)?;
    repo.find_tree(oid)
}

/// Relies on `git2::Tree::len`: the number of entries in this tree.
#[verifier::external_body]
pub(crate) fn tree_len(t: &git2::Tree) -> usize {
    t.len()
}

/// Relies on `git2::Tree::get`: the entry at an index, or None past the end;
/// its fields are taken apart by `git2::TreeEntry`'s accessors (`name_bytes`,
/// `kind`, `filemode`, `id` — ids are 20 bytes).
#[verifier::external_body]
pub(crate) fn tree_entry_at(t: &git2::Tree, i: usize) -> (r: Option<RawEntry>)
    ensures
        r is Some ==> r.unwrap().id.bytes@.len() == 20,
{
    t.get(i).map(|e| RawEntry {
        name: e.name_bytes().to_vec(),
        kind: match e.kind() {
            Some(git2::ObjectType::Blob) => EntryKind::Blob,
            Some(git2::ObjectType::Tree) => EntryKind::Tree,
            _ => EntryKind::Other,
        },
        filemode: e.filemode(),
        id: ObjectId { bytes: e.id().as_bytes().to_vec() },
    })
}

/// Relies on `git2::Repository::find_blob` (and `git2::Oid::from_bytes`).
#[verifier::external_body]
pub(crate) fn find_blob<'r>(repo: &'r git2::Repository, id: &ObjectId) -> (r: Result<
    git2::Blob<'r>,
    git2::Error,
>) {
    let oid = git2::Oid::from_bytes(&id.bytes)?;
    repo.find_blob(oid)
}

/// Relies on `git2::Blob::is_binary`: the engine's binary-content heuristic.
#[verifier::external_body]
pub(crate) fn blob_is_binary(b: &git2::Blob) -> bool {
    b.is_binary()
}

/// Relies on `git2::Blob::content`: the raw content bytes.
#[verifier::external_body]
pub(crate) fn blob_content(b: &git2::Blob) -> Vec<u8> {
    b.content().to_vec()
}

/// Relies on `git2::Repository::revwalk`: a fresh history walker.
#[verifier::external_body]
pub(crate) fn revwalk_new<'r>(repo: &'r git2::Repository) -> (r: Result<
    git2::Revwalk<'r>,
    git2::Error,
>) {
    repo.revwalk()
}

/// Relies on `git2::Revwalk::push_head`: starts the walk at the currently
/// checked-out reference.
#[verifier::external_body]
pub(crate) fn revwalk_push_head(w: &mut git2::Revwalk<'_>) -> (r: Result<(), git2::Error>) {
    w.push_head()
}

/// Relies on `git2::Revwalk::push_glob`: starts the walk at every reference.
#[verifier::external_body]
pub(crate) fn revwalk_push_all(w: &mut git2::Revwalk<'_>) -> (r: Result<(), git2::Error>) {
    w.push_glob("refs/*")
}

/// Relies on `git2::Revwalk`'s `Iterator::next`: the next commit id (20
/// bytes) in the engine's traversal order, or None when exhausted.
#[verifier::external_body]
pub(crate) fn revwalk_next(w: &mut git2::Revwalk<'_>) -> (r: Result<
    Option<CommitId>,
    git2::Error,
>)
    ensures
        (r is Ok && r.unwrap() is Some) ==> r.unwrap().unwrap().bytes@.len() == 20,
{
    match w.next() {
        None => Ok(None),
        Some(Ok(o)) => Ok(Some(CommitId { bytes: o.as_bytes().to_vec() })),
        Some(Err(e)) => Err(e),
    }
}

/// Relies on `String::from_utf8`: succeeds exactly on valid UTF-8 input, and
/// the resulting string holds exactly the input bytes.
#[verifier::external_body]
pub(crate) fn bytes_to_string(b: Vec<u8>) -> (r: Option<String>)
    ensures
        r is Some <==> valid_utf8(b@),
        r is Some ==> encode_utf8(r.unwrap()@) == b@,
{
    String::from_utf8(b).ok()
}

/// What `String::from_utf8_lossy` decodes a byte sequence to: a function of
/// the bytes alone.
pub uninterp spec fn lossy_decode(b: Seq<u8>) -> Seq<char>;

/// Relies on `String::from_utf8_lossy`: decodes UTF-8 and replaces invalid
/// sequences, never failing; valid UTF-8 input decodes exactly, so that
/// re-encoding the result gives back the input bytes.
#[verifier::external_body]
pub(crate) fn bytes_to_string_lossy(b: &Vec<u8>) -> (r: String)
    ensures
        r@ == lossy_decode(b@),
        valid_utf8(b@) ==> encode_utf8(r@) == b@,
{
    String::from_utf8_lossy(b.as_slice()).to_string()
}

} // verus!
