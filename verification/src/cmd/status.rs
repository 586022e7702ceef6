//! `status` subcommand: what is noted of the working tree and of the
//! tracking branches of a repository, and how it is printed.
use vstd::prelude::*;
use vstd::string::*;
use ansi_term::{Colour, Style};
use crate::app::{bold_of, Error, Repo};
use crate::cmd::pull::reconcile::{
    ahead_message, diverged_message, plural, relationship_failure, up_to_date_message,
};
use crate::cmd::pull::{branch_failures, note_branch_errors};
use crate::term::{paint, painted, plain};
use crate::text::{decimal, decimal_string};
use crate::ui::{listing, worst, BranchView, Kind, Note, NoteView, Summary, TrackingBranch};

verus! {

/// Name of the command (`status`).
pub const NAME: &'static str = "status";

/// One-line description of the command (`status`).
pub const ABOUT: &'static str = "Prints current status of repositories";

/// Name of the argument for `-t/--tag`.
pub const TAG_ARG: &'static str = "TAG";

/// Name of the argument for `-v/--verbose`.
pub const VERBOSE_ARG: &'static str = "VERBOSE";

/// Group number for errors encountered when fetching statuses.
pub const STATUS_FAILURE_GROUP: usize = 0;

/// Group number for errors encountered when getting branch status.
pub const BRANCH_FAILURE_GROUP: usize = 1;

/// Group number for files that are changed in index but uncommitted.
pub const STATUS_INDEXED_GROUP: usize = 10;

/// Group number for modified files.
pub const STATUS_MODIFIED_GROUP: usize = 11;

/// Group number for untracked files.
pub const STATUS_UNTRACKED_GROUP: usize = 12;

/// Group number for branch status messages.
pub const BRANCH_STATUS_GROUP: usize = 110;

/// The status flags of a file that is changed in the index: new, modified,
/// deleted, renamed or of another type.
pub const INDEXED: u32 = 31;

/// The status flags of a file that is changed in the working tree:
/// modified, deleted, of another type or renamed.
pub const MODIFIED: u32 = 3840;

/// The status flag of a file that is new in the working tree.
pub const UNTRACKED: u32 = 128;

// ----- working tree ---------------------------------------------------------
/// The flags of git for the status of a file, as bits.
pub struct Flags {
    /// The file is new in the index.
    pub index_new: u32,
    /// The file is modified in the index.
    pub index_modified: u32,
    /// The file is deleted in the index.
    pub index_deleted: u32,
    /// The file is renamed in the index.
    pub index_renamed: u32,
    /// The file is of another type in the index.
    pub index_typechange: u32,
    /// The file is new in the working tree.
    pub wt_new: u32,
    /// The file is modified in the working tree.
    pub wt_modified: u32,
    /// The file is deleted in the working tree.
    pub wt_deleted: u32,
    /// The file is of another type in the working tree.
    pub wt_typechange: u32,
    /// The file is renamed in the working tree.
    pub wt_renamed: u32,
}

/// `git2::Status::bits` of the flags for changes in the index and in the
/// working tree: the values that git gives them.
#[verifier::external_body]
pub(crate) fn git_flags() -> (r: Flags)
    ensures
        r.index_new == 1,
        r.index_modified == 2,
        r.index_deleted == 4,
        r.index_renamed == 8,
        r.index_typechange == 16,
        r.wt_new == 128,
        r.wt_modified == 256,
        r.wt_deleted == 512,
        r.wt_typechange == 1024,
        r.wt_renamed == 2048,
{
    Flags {
        index_new: git2::Status::INDEX_NEW.bits(),
        index_modified: git2::Status::INDEX_MODIFIED.bits(),
        index_deleted: git2::Status::INDEX_DELETED.bits(),
        index_renamed: git2::Status::INDEX_RENAMED.bits(),
        index_typechange: git2::Status::INDEX_TYPECHANGE.bits(),
        wt_new: git2::Status::WT_NEW.bits(),
        wt_modified: git2::Status::WT_MODIFIED.bits(),
        wt_deleted: git2::Status::WT_DELETED.bits(),
        wt_typechange: git2::Status::WT_TYPECHANGE.bits(),
        wt_renamed: git2::Status::WT_RENAMED.bits(),
    }
}

/// Returns the flags of a file that is changed in the index.
pub fn indexed_flags() -> (r: u32)
    ensures
        r == INDEXED,
{
    let f = git_flags();
    let r = f.index_deleted | f.index_modified | f.index_new | f.index_renamed | f.index_typechange;
    assert(4u32 | 2u32 | 1u32 | 8u32 | 16u32 == 31u32) by (bit_vector);
    r
}

/// Returns the flags of a tracked file that is changed in the working tree.
pub fn modified_flags() -> (r: u32)
    ensures
        r == MODIFIED,
{
    let f = git_flags();
    let r = f.wt_deleted | f.wt_modified | f.wt_renamed | f.wt_typechange;
    assert(512u32 | 256u32 | 2048u32 | 1024u32 == 3840u32) by (bit_vector);
    r
}

/// Returns the flag of a file that is new in the working tree.
pub fn untracked_flags() -> (r: u32)
    ensures
        r == UNTRACKED,
{
    git_flags().wt_new
}

/// How many of `entries` have one of the flags `mask`.
pub open spec fn matching(entries: Seq<u32>, mask: u32) -> nat
    decreases entries.len(),
{
    if entries.len() == 0 {
        0
    } else {
        matching(entries.drop_last(), mask) + if entries.last() & mask != 0 {
            1nat
        } else {
            0nat
        }
    }
}

/// Returns how many of the status entries `entries`, each the flags of a
/// file, have one of the flags `mask`.
pub fn count_matching(entries: &Vec<u32>, mask: u32) -> (r: usize)
    ensures
        r == matching(entries@, mask),
{
    let mut r: usize = 0;
    let mut i: usize = 0;
    assert(entries@.take(0) =~= Seq::empty());
    while i < entries.len()
        invariant
            i <= entries.len(),
            r <= i,
            r == matching(entries@.take(i as int), mask),
        decreases entries.len() - i,
    {
        assert(entries@.take(i + 1).drop_last() =~= entries@.take(i as int));
        assert(entries@.take(i + 1).last() == entries@[i as int]);
        if entries[i] & mask != 0 {
            r = r + 1;
        }
        i = i + 1;
    }
    assert(entries@.take(i as int) =~= entries@);
    r
}

/// The note on `count` files of which `description` holds: a failure where
/// there is such a file.
pub open spec fn status_note(group: nat, count: nat, description: Seq<char>) -> NoteView {
    NoteView {
        group: group,
        kind: if count > 0 {
            Kind::Failure
        } else {
            Kind::Neutral
        },
        message: decimal(count) + " "@ + (if count == 1 {
            "file is"@
        } else {
            "files are"@
        }) + " "@ + description,
    }
}

/// Returns a new `Note` for the given status result.
pub fn note_for_status(group: usize, count: usize, description: &str) -> (r: Note)
    ensures
        r@ == status_note(group as nat, count as nat, description@),
{
    let kind = if count > 0 {
        Kind::Failure
    } else {
        Kind::Neutral
    };
    let files = if count == 1 {
        "file is"
    } else {
        "files are"
    };
    let mut m = decimal_string(count);
    m.append(" ");
    m.append(files);
    m.append(" ");
    m.append(description);
    Note::new(group, kind, m.as_str())
}

/// What is noted of the working tree: how many files are changed in the
/// index, modified and untracked; or, where the status could not be had,
/// that it could not.
pub open spec fn worktree_notes(entries: Option<Seq<u32>>) -> Seq<NoteView> {
    match entries {
        Some(entries) => seq![
            status_note(
                STATUS_INDEXED_GROUP as nat,
                matching(entries, INDEXED),
                "changed in index but uncommitted"@,
            ),
            status_note(STATUS_MODIFIED_GROUP as nat, matching(entries, MODIFIED), "modified"@),
            status_note(STATUS_UNTRACKED_GROUP as nat, matching(entries, UNTRACKED), "untracked"@),
        ],
        None => seq![
            NoteView {
                group: STATUS_FAILURE_GROUP as nat,
                kind: Kind::Failure,
                message: "failed to get status info"@,
            },
        ],
    }
}

/// Adds to `summary` what is noted of the working tree, given the flags of
/// every file in its status, or nothing where the status could not be had.
pub fn note_worktree(summary: &mut Summary, entries: Option<&Vec<u32>>)
    ensures
        final(summary)@ == old(summary)@ + worktree_notes(
            match entries {
                Some(entries) => Some(entries@),
                None => None,
            },
        ),
{
    match entries {
        Some(entries) => {
            let indexed = count_matching(entries, indexed_flags());
            summary.push_note(
                note_for_status(STATUS_INDEXED_GROUP, indexed, "changed in index but uncommitted"),
            );
            let modified = count_matching(entries, modified_flags());
            summary.push_note(note_for_status(STATUS_MODIFIED_GROUP, modified, "modified"));
            let untracked = count_matching(entries, untracked_flags());
            summary.push_note(note_for_status(STATUS_UNTRACKED_GROUP, untracked, "untracked"));
            assert(summary@ =~= old(summary)@ + worktree_notes(Some(entries@)));
        },
        None => {
            summary.push_note(
                Note::new(STATUS_FAILURE_GROUP, Kind::Failure, "failed to get status info"),
            );
            assert(summary@ =~= old(summary)@ + worktree_notes(None));
        },
    }
}

// ----- branches -------------------------------------------------------------
/// Message: the local branch lacks commits of its upstream. The ending of
/// "commit" goes by the number of commits that the branch is ahead.
pub open spec fn behind_message(b: BranchView, ahead: nat, behind: nat) -> Seq<char> {
    b.local_name + " is behind "@ + b.upstream_name + " by "@ + decimal(behind) + " commit"@ + plural(
        ahead,
    )
}

/// The note on a tracking branch, given the numbers of commits by which it
/// is ahead of and behind its upstream, or the reason why they could not be
/// had.
pub open spec fn branch_status(b: BranchView, graph: Result<(usize, usize), String>) -> NoteView {
    match graph {
        Err(why) => NoteView {
            group: BRANCH_FAILURE_GROUP as nat,
            kind: Kind::Failure,
            message: relationship_failure(b, why@),
        },
        Ok((ahead, behind)) => if ahead > 0 && behind > 0 {
            NoteView {
                group: BRANCH_STATUS_GROUP as nat,
                kind: Kind::Failure,
                message: diverged_message(b, ahead as nat, behind as nat),
            }
        } else if ahead > 0 {
            NoteView {
                group: BRANCH_STATUS_GROUP as nat,
                kind: Kind::Warning,
                message: ahead_message(b, ahead as nat),
            }
        } else if behind > 0 {
            NoteView {
                group: BRANCH_STATUS_GROUP as nat,
                kind: Kind::Failure,
                message: behind_message(b, ahead as nat, behind as nat),
            }
        } else {
            NoteView {
                group: BRANCH_STATUS_GROUP as nat,
                kind: Kind::Neutral,
                message: up_to_date_message(b),
            }
        },
    }
}

/// Returns the note on a tracking branch.
pub fn branch_note(branch: &TrackingBranch, graph: &Result<(usize, usize), String>) -> (r: Note)
    ensures
        r@ == branch_status(branch@, *graph),
{
    let local_name = branch.local_name();
    let upstream_name = branch.upstream_name();
    match graph {
        Err(why) => {
            let mut m = String::from_str("failed to determine relationship between local branch ");
            m.append(local_name.as_str());
            m.append(" and upstream branch ");
            m.append(upstream_name.as_str());
            m.append(" (");
            m.append(why.as_str());
            m.append(")");
            Note::new(BRANCH_FAILURE_GROUP, Kind::Failure, m.as_str())
        },
        Ok((ahead, behind)) => {
            let ahead = *ahead;
            let behind = *behind;
            let s = if ahead == 1 {
                ""
            } else {
                "s"
            };
            if ahead > 0 && behind > 0 {
                let mut m = local_name.clone();
                m.append(" has diverged from ");
                m.append(upstream_name.as_str());
                m.append(" (");
                m.append(decimal_string(ahead).as_str());
                m.append(" and ");
                m.append(decimal_string(behind).as_str());
                m.append(" commits)");
                Note::new(BRANCH_STATUS_GROUP, Kind::Failure, m.as_str())
            } else if ahead > 0 {
                let mut m = local_name.clone();
                m.append(" is ahead of ");
                m.append(upstream_name.as_str());
                m.append(" by ");
                m.append(decimal_string(ahead).as_str());
                m.append(" commit");
                m.append(s);
                Note::new(BRANCH_STATUS_GROUP, Kind::Warning, m.as_str())
            } else if behind > 0 {
                let mut m = local_name.clone();
                m.append(" is behind ");
                m.append(upstream_name.as_str());
                m.append(" by ");
                m.append(decimal_string(behind).as_str());
                m.append(" commit");
                m.append(s);
                Note::new(BRANCH_STATUS_GROUP, Kind::Failure, m.as_str())
            } else {
                let mut m = local_name.clone();
                m.append(" is up to date with ");
                m.append(upstream_name.as_str());
                Note::new(BRANCH_STATUS_GROUP, Kind::Neutral, m.as_str())
            }
        },
    }
}

/// A tracking branch with its relationship to its upstream.
pub struct Followed {
    /// The branch.
    pub branch: TrackingBranch,
    /// The numbers of commits by which the branch is ahead of and behind its
    /// upstream, or the reason why they could not be had.
    pub graph: Result<(usize, usize), String>,
}

/// The notes on `followed`, one for each branch, in their order.
pub open spec fn branch_notes(followed: Seq<Followed>) -> Seq<NoteView> {
    followed.map_values(|t: Followed| branch_status(t.branch@, t.graph))
}

/// Returns the summary of the status of a repository: what is noted of its
/// working tree, a note for each of its tracking branches, and a failure
/// note for each branch that could not be worked on.
pub fn summarize(entries: Option<&Vec<u32>>, followed: &Vec<Followed>, errors: &[Error]) -> (r: Summary)
    ensures
        r@ == worktree_notes(
            match entries {
                Some(entries) => Some(entries@),
                None => None,
            },
        ) + branch_notes(followed@) + branch_failures(crate::ui::error_views(errors@)),
{
    let mut summary = Summary::new();
    note_worktree(&mut summary, entries);
    let ghost first = summary@;
    let mut i: usize = 0;
    assert(summary@ =~= first + branch_notes(followed@.take(0)));
    while i < followed.len()
        invariant
            i <= followed.len(),
            summary@ == first + branch_notes(followed@.take(i as int)),
        decreases followed.len() - i,
    {
        let ghost before = summary@;
        let note = branch_note(&followed[i].branch, &followed[i].graph);
        summary.push_note(note);
        assert(branch_notes(followed@.take(i + 1)) =~= branch_notes(followed@.take(i as int)).push(note@));
        assert(summary@ =~= first + branch_notes(followed@.take(i + 1)));
        i = i + 1;
    }
    assert(followed@.take(i as int) =~= followed@);
    note_branch_errors(&mut summary, errors);
    summary
}

// ----- printing -------------------------------------------------------------
/// The colour in which a repository is printed whose summary is of `kind`.
pub open spec fn status_colour(kind: Kind) -> Colour {
    match kind {
        Kind::Neutral => Colour::Green,
        Kind::Success => Colour::Green,
        Kind::Warning => Colour::Yellow,
        Kind::Failure => Colour::Red,
    }
}

/// The style in which a note of `kind` is printed: warnings and failures are
/// coloured where all notes are shown.
pub open spec fn line_style(verbose: bool, kind: Kind) -> Style {
    if verbose && kind == Kind::Warning {
        Style { foreground: Some(Colour::Yellow), ..plain() }
    } else if verbose && kind == Kind::Failure {
        Style { foreground: Some(Colour::Red), ..plain() }
    } else {
        plain()
    }
}

/// The line of a note: notes of no consequence are shown only where all
/// notes are.
pub open spec fn status_line(note: NoteView, verbose: bool) -> Seq<char> {
    if verbose || note.kind != Kind::Neutral {
        painted(line_style(verbose, note.kind), "  \u{2192} "@ + note.message) + "\n"@
    } else {
        Seq::empty()
    }
}

/// The lines of `notes`, one after the other.
pub open spec fn status_lines(notes: Seq<NoteView>, verbose: bool) -> Seq<char>
    decreases notes.len(),
{
    if notes.len() == 0 {
        Seq::empty()
    } else {
        status_line(notes[0], verbose) + status_lines(notes.drop_first(), verbose)
    }
}

/// What is printed of a repository shown as `name` with `symbol`: symbol and
/// name in bold, the full path beneath where all is shown, then the notes.
pub open spec fn status_block(
    symbol: Seq<char>,
    name: Seq<char>,
    full_path: Seq<char>,
    notes: Seq<NoteView>,
    verbose: bool,
) -> Seq<char> {
    painted(bold_of(status_colour(worst(notes))), symbol) + " "@ + painted(
        bold_of(status_colour(worst(notes))),
        name,
    ) + (if verbose {
        " \n  \u{2022} "@ + full_path
    } else {
        Seq::empty()
    }) + "\n"@ + status_lines(listing(notes), verbose)
}

/// Returns what is printed of `repo`, shown as `name`, whose summary is
/// `summary`.
pub fn print_repo(repo: &Repo, name: &str, summary: &Summary, verbose: bool) -> (r: String)
    ensures
        r@ == status_block(
            match repo@.symbol {
                Some(symbol) => symbol,
                None => crate::app::default_symbol(),
            },
            name@,
            repo@.full_path,
            summary@,
            verbose,
        ),
{
    let color = match summary.kind() {
        Kind::Neutral => Colour::Green,
        Kind::Success => Colour::Green,
        Kind::Warning => Colour::Yellow,
        Kind::Failure => Colour::Red,
    };
    let symbol = paint(color.bold(), repo.symbol_or_default());
    let title = paint(color.bold(), name);
    let mut r = String::new();
    r.append(symbol.as_str());
    r.append(" ");
    r.append(title.as_str());
    let ghost first = r@;
    if verbose {
        r.append(" \n  \u{2022} ");
        r.append(repo.full_path());
        assert(r@ =~= first + (" \n  \u{2022} "@ + repo@.full_path));
    } else {
        assert(r@ =~= first + Seq::<char>::empty());
    }
    r.append("\n");
    let ghost head = r@;
    let mut notes = summary.iter();
    let ghost all = notes.remaining();
    assert(r@ =~= head + Seq::<char>::empty());
    loop
        invariant
            all == listing(summary@),
            r@ + status_lines(notes.remaining(), verbose) == head + status_lines(all, verbose),
        ensures
            r@ == head + status_lines(all, verbose),
        decreases notes.remaining().len(),
    {
        let ghost rest = notes.remaining();
        let ghost before = r@;
        match notes.next() {
            Some(note) => {
                let kind = *note.kind();
                let style = match (verbose, kind) {
                    (true, Kind::Warning) => Colour::Yellow.normal(),
                    (true, Kind::Failure) => Colour::Red.normal(),
                    _ => Style::new(),
                };
                let shown = verbose || match kind {
                    Kind::Neutral => false,
                    _ => true,
                };
                if shown {
                    let mut text = String::from_str("  \u{2192} ");
                    text.append(note.message());
                    let line = paint(style, text.as_str());
                    r.append(line.as_str());
                    r.append("\n");
                }
                assert(r@ =~= before + status_line(rest[0], verbose));
                assert(before + status_line(rest[0], verbose) + status_lines(rest.drop_first(), verbose)
                    =~= before + (status_line(rest[0], verbose) + status_lines(
                    rest.drop_first(),
                    verbose,
                )));
            },
            None => {
                assert(status_lines(rest, verbose) =~= Seq::<char>::empty());
                assert(r@ =~= head + status_lines(all, verbose));
                break ;
            },
        }
    }
    r
}

} // verus!
