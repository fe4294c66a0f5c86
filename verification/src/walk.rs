//! A bounded, renderable view of the commit graph: walks the history up to a
//! configured number of commits and renders one diagnostic line per commit.

use vstd::prelude::*;
use crate::error::RepoError;
use crate::gitio::{
    commit_message, commit_parent_count, commit_parent_id, find_commit, repo_open,
    revwalk_new, revwalk_next, revwalk_push_all, revwalk_push_head,
};
use crate::ids::CommitId;
use crate::text::{dec_chars, push_decimal, render_commit_line};

verus! {

/// Which references a history walk starts from.
#[derive(Clone, Copy, PartialEq, Eq, Structural, Debug)]
pub enum RefScope {
    /// only the currently checked-out reference's ancestry
    CurrentOnly,
    /// the ancestry of every reference
    AllReferences,
}

/// Configuration of a history walk: the most commits to visit, and the
/// reference scope to start from.
#[derive(Clone, Copy, Debug)]
pub struct LogWalkerCfg {
    /// the most commits the walk may return
    pub max_count: usize,
    /// which references the walk starts from
    pub scope: RefScope,
}

/// The summary line put before the per-commit lines.
pub open spec fn summary_line_chars(n: nat) -> Seq<char> {
    "commits: "@ + dec_chars(n)
}

/// Reads up to `cfg.max_count` commit ids reachable in `cfg.scope`, in the
/// engine's traversal order.
pub fn walk_commit_ids(repo: &git2::Repository, cfg: &LogWalkerCfg) -> (r: Result<
    Vec<CommitId>,
    RepoError,
>)
    ensures
        r matches Ok(ids) ==> ids@.len() <= cfg.max_count,
        r matches Ok(ids) ==> forall|k: int|
            0 <= k < ids@.len() ==> (#[trigger] ids@[k].bytes@).len() == 20,
{
    let mut walk = match revwalk_new(repo) {
        Ok(w) => w,
        Err(e) => {
            return Err(RepoError::Git(e));
        },
    };
    let pushed = match cfg.scope {
        RefScope::CurrentOnly => revwalk_push_head(&mut walk),
        RefScope::AllReferences => revwalk_push_all(&mut walk),
    };
    match pushed {
        Ok(()) => {},
        Err(e) => {
            return Err(RepoError::Git(e));
        },
    }
    let mut ids: Vec<CommitId> = Vec::new();
    while ids.len() < cfg.max_count
        invariant
            ids@.len() <= cfg.max_count,
            forall|k: int| 0 <= k < ids@.len() ==> (#[trigger] ids@[k].bytes@).len() == 20,
        decreases cfg.max_count - ids@.len(),
    {
        match revwalk_next(&mut walk) {
            Err(e) => {
                return Err(RepoError::Git(e));
            },
            Ok(None) => {
                return Ok(ids);
            },
            Ok(Some(id)) => {
                ids.push(id);
            },
        }
    }
    Ok(ids)
}

/// Renders the commit graph as diagnostic lines: first a summary line with
/// the number of commits visited, then one line per commit, in the walk's
/// order, holding the commit's short id, its parents' short ids, and its
/// message.
pub fn commit_graph_lines(repo_path: &str, cfg: &LogWalkerCfg) -> (r: Result<
    Vec<String>,
    RepoError,
>)
    ensures
        r matches Ok(lines) ==> {
            &&& 1 <= lines@.len() <= 1 + cfg.max_count
            &&& lines@[0]@ == summary_line_chars((lines@.len() - 1) as nat)
        },
{
    let repo = match repo_open(repo_path) {
        Ok(r) => r,
        Err(e) => {
            return Err(RepoError::Git(e));
        },
    };
    let ids = match walk_commit_ids(&repo, cfg) {
        Ok(ids) => ids,
        Err(e) => {
            return Err(e);
        },
    };
    let mut lines: Vec<String> = Vec::new();
    let mut head = String::from_str("commits: ");
    push_decimal(&mut head, ids.len() as u64);
    lines.push(head);
    let mut i: usize = 0;
    while i < ids.len()
        invariant
            i <= ids@.len(),
            ids@.len() <= cfg.max_count,
            lines@.len() == 1 + i,
            lines@[0]@ == summary_line_chars(ids@.len() as nat),
        decreases ids@.len() - i,
    {
        let c = match find_commit(&repo, &ids[i]) {
            Ok(c) => c,
            Err(e) => {
                return Err(RepoError::Git(e));
            },
        };
        let short = ids[i].get_short_string();
        let pc: usize = commit_parent_count(&c);
        let mut parents: Vec<String> = Vec::new();
        let mut j: usize = 0;
        while j < pc
            decreases pc - j,
        {
            match commit_parent_id(&c, j) {
                Ok(pid) => {
                    parents.push(pid.get_short_string());
                },
                Err(e) => {
                    return Err(RepoError::Git(e));
                },
            }
            j = j + 1;
        }
        let msg = match commit_message(&c) {
            Some(m) => m,
            None => {
                return Err(RepoError::MissingMessage);
            },
        };
        let line = render_commit_line(short.as_str(), &parents, msg.as_str());
        lines.push(line);
        i = i + 1;
    }
    Ok(lines)
}

/// Renders the commit graph reachable from the checked-out reference, up to
/// one thousand commits: the walk configuration all revisions of the
/// diagnostic printer used.
pub fn print_tree_lines(repo_path: &str) -> (r: Result<Vec<String>, RepoError>)
    ensures
        r matches Ok(lines) ==> {
            &&& 1 <= lines@.len() <= 1001
            &&& lines@[0]@ == summary_line_chars((lines@.len() - 1) as nat)
        },
{
    let cfg = LogWalkerCfg { max_count: 1000, scope: RefScope::CurrentOnly };
    commit_graph_lines(repo_path, &cfg)
}

} // verus!
