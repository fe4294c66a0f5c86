//! The failure conditions of the repository introspection operations.

use vstd::prelude::*;

verus! {

/// What can go wrong while listing files, fetching content, or walking the
/// commit graph.
#[derive(Debug)]
pub enum RepoError {
    /// The engine reported a failure: the repository could not be opened, an
    /// id did not resolve, or an object could not be read.
    Git(git2::Error),
    /// Content was requested for a blob that the engine classifies as binary.
    BinaryFile,
    /// A tree entry name was not valid text.
    Decode,
    /// A commit's message could not be read as text where one was required.
    MissingMessage,
    /// The directory walk exceeded its safety bound.
    WalkLimit,
}

} // verus!
