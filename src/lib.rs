//! A bridge between an editor and a pull request: the diff-hunk model, the
//! records of a review snapshot, and the step functions that order the
//! remote reads of a fetch and the remote calls of a comment post.

pub mod hunk;
pub mod types;
pub mod fetch;
pub mod comment;
pub mod pr_url;
pub mod patch;
