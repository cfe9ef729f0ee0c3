//! What is known of a commit besides its diff.

use vstd::prelude::*;
use crate::diff::FileChange;

verus! {

/// A commit of the history: who made it, when, why, and what it changed.
#[derive(Debug)]
pub struct CommitMetadata {
    pub hash: String,
    pub author: String,
    /// The date of the commit, written as it is to be shown.
    pub date: String,
    pub message: String,
    pub changes: Vec<FileChange>,
}

} // verus!
