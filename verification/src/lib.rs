//! Read-only introspection over a git repository: a flat, deterministically
//! ordered listing of the files in a commit's snapshot, text content lookup
//! for listed files, and a bounded, renderable view of the commit graph.

pub mod error;
pub mod gitio;
pub mod ids;
pub mod paths;
pub mod text;
pub mod tree;
pub mod walk;
