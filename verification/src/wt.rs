//! The working tree of a repository: the questions that are asked of its
//! status, how the status is queried for each, and what the answer is.
use vstd::prelude::*;
use crate::cmd::status::{count_matching, matching, modified_flags, untracked_flags, MODIFIED, UNTRACKED};

verus! {

/// Which files a status query reports.
#[derive(Clone, Copy, Debug, PartialEq, Eq, Structural)]
pub enum Show {
    /// Changes between HEAD and the index.
    Index,
    /// Changes between the index and the working directory.
    Workdir,
    /// Both.
    IndexAndWorkdir,
}

/// How the status of a repository is queried. Submodules are always left
/// out, and renames are always detected, between HEAD and index, between
/// index and working directory, and among rewritten files.
#[derive(Clone, Copy, Debug, PartialEq, Eq, Structural)]
pub struct Query {
    /// Which files are reported.
    pub show: Show,
    /// Whether untracked files are reported.
    pub include_untracked: bool,
    /// Whether untracked directories are searched for files.
    pub recurse_untracked_dirs: bool,
}

/// What is asked of a working tree.
#[derive(Clone, Copy, Debug, PartialEq, Eq, Structural)]
pub enum Question {
    /// How many files are changed in the index but not committed.
    Uncommitted,
    /// How many tracked files are modified, deleted, renamed or of another
    /// type in the working directory.
    Modified,
    /// How many files in the working directory are not tracked.
    Untracked,
    /// Whether anything at all is changed or untracked.
    Dirty,
}

impl Question {
    /// How the status is queried for this question.
    pub open spec fn asks(self) -> Query {
        match self {
            Question::Uncommitted => Query {
                show: Show::Index,
                include_untracked: false,
                recurse_untracked_dirs: false,
            },
            Question::Modified => Query {
                show: Show::Workdir,
                include_untracked: false,
                recurse_untracked_dirs: false,
            },
            Question::Untracked => Query {
                show: Show::Workdir,
                include_untracked: true,
                recurse_untracked_dirs: true,
            },
            Question::Dirty => Query {
                show: Show::IndexAndWorkdir,
                include_untracked: true,
                recurse_untracked_dirs: false,
            },
        }
    }

    /// The number that answers this question, given the flags of every file
    /// that the query reported.
    pub open spec fn counts(self, entries: Seq<u32>) -> nat {
        match self {
            Question::Uncommitted => entries.len(),
            Question::Modified => matching(entries, MODIFIED),
            Question::Untracked => matching(entries, UNTRACKED),
            Question::Dirty => entries.len(),
        }
    }

    /// Returns how the status is queried for this question.
    pub fn query(&self) -> (r: Query)
        ensures
            r == self.asks(),
    {
        match self {
            Question::Uncommitted => Query {
                show: Show::Index,
                include_untracked: false,
                recurse_untracked_dirs: false,
            },
            Question::Modified => Query {
                show: Show::Workdir,
                include_untracked: false,
                recurse_untracked_dirs: false,
            },
            Question::Untracked => Query {
                show: Show::Workdir,
                include_untracked: true,
                recurse_untracked_dirs: true,
            },
            Question::Dirty => Query {
                show: Show::IndexAndWorkdir,
                include_untracked: true,
                recurse_untracked_dirs: false,
            },
        }
    }

    /// Returns the number that answers this question, given the flags of
    /// every file that the query reported.
    pub fn answer(&self, entries: &Vec<u32>) -> (r: usize)
        ensures
            r == self.counts(entries@),
    {
        match self {
            Question::Uncommitted => entries.len(),
            Question::Modified => count_matching(entries, modified_flags()),
            Question::Untracked => count_matching(entries, untracked_flags()),
            Question::Dirty => entries.len(),
        }
    }
}

/// Returns whether a working tree is dirty, given the flags of every file
/// that the query for it reported: it is where there is such a file.
pub fn is_dirty(entries: &Vec<u32>) -> (r: bool)
    ensures
        r == (entries@.len() > 0),
{
    entries.len() > 0
}

} // verus!
