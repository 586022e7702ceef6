//! Reconciliation of a local branch with its upstream after a fetch: what is
//! reported of the pair, and the fast-forward with its safety rules.
use vstd::prelude::*;
use vstd::string::*;
use crate::cmd::pull::{BRANCH_FAILURE_GROUP, BRANCH_STATUS_GROUP};
use crate::text::{decimal, decimal_string};
use crate::ui::{BranchView, Kind, Note, NoteView, Summary, TrackingBranch};

verus! {

/// What the caller is to do next for the branch.
#[derive(Clone, Copy, Debug, PartialEq, Eq, Structural)]
pub enum Action {
    /// Nothing: the branch is dealt with and its notes are complete.
    Finish,
    /// Ask the repository for the status of index and working tree,
    /// untracked files included, and report the number of entries.
    QueryWorktree,
    /// Move the local branch reference to the upstream commit id.
    MoveRef,
    /// Hard-reset the working tree to the upstream commit.
    ResetWorktree,
    /// Move the local branch reference back to the commit id it had.
    RestoreRef,
}

/// The message with which the move of a reference is entered in the reflog.
pub open spec fn reflog_entry(action: Action) -> Option<Seq<char>> {
    match action {
        Action::MoveRef => Some("mgit: fast-forward"@),
        Action::RestoreRef => Some("mgit: undo fast-forward"@),
        _ => None,
    }
}

/// Returns the message with which the move of a reference that `action` asks
/// for is to be entered in the reflog; nothing for an action that moves no
/// reference.
pub fn reflog_message(action: Action) -> (r: Option<&'static str>)
    ensures
        crate::app::option_str_view(r) == reflog_entry(action),
{
    match action {
        Action::MoveRef => Some("mgit: fast-forward"),
        Action::RestoreRef => Some("mgit: undo fast-forward"),
        _ => None,
    }
}

/// What came of the action that the caller was asked for. A failure carries
/// the text of its cause.
pub enum Outcome {
    /// The number of entries in the status of index and working tree.
    Worktree(Result<usize, String>),
    /// The local branch reference was moved to the upstream commit id, or not.
    Moved(Result<(), String>),
    /// The working tree was reset, or not.
    Reset(Result<(), String>),
    /// The local branch reference was moved back, or not.
    Restored(Result<(), String>),
}

/// Message: the relationship of the two branches could not be determined.
pub open spec fn relationship_failure(b: BranchView, why: Seq<char>) -> Seq<char> {
    "failed to determine relationship between local branch "@ + b.local_name
        + " and upstream branch "@ + b.upstream_name + " ("@ + why + ")"@
}

/// Message: both branches have commits that the other lacks.
pub open spec fn diverged_message(b: BranchView, ahead: nat, behind: nat) -> Seq<char> {
    b.local_name + " has diverged from "@ + b.upstream_name + " ("@ + decimal(ahead) + " and "@
        + decimal(behind) + " commits)"@
}

/// The ending of "commit" for `count` commits.
pub open spec fn plural(count: nat) -> Seq<char> {
    if count == 1 {
        ""@
    } else {
        "s"@
    }
}

/// Message: the local branch has commits that its upstream lacks.
pub open spec fn ahead_message(b: BranchView, ahead: nat) -> Seq<char> {
    b.local_name + " is ahead of "@ + b.upstream_name + " by "@ + decimal(ahead) + " commit"@
        + plural(ahead)
}

/// Message: the two branches are at the same commit.
pub open spec fn up_to_date_message(b: BranchView) -> Seq<char> {
    b.local_name + " is up to date with "@ + b.upstream_name
}

/// Message: the fast-forward failed; what follows says why.
pub open spec fn fast_forward_failure(b: BranchView) -> Seq<char> {
    "failed to fast-forward "@ + b.local_name + " to "@ + b.upstream_name
}

/// Message: the branch is checked out and the working tree is not clean.
pub open spec fn dirty_message(b: BranchView) -> Seq<char> {
    fast_forward_failure(b) + " (worktree is dirty)"@
}

/// Message: the status of the working tree could not be had.
pub open spec fn status_failure(b: BranchView, why: Seq<char>) -> Seq<char> {
    fast_forward_failure(b) + " (could not get worktree status) ("@ + why + ")"@
}

/// Message: the local branch reference could not be moved.
pub open spec fn move_failure(b: BranchView, why: Seq<char>) -> Seq<char> {
    fast_forward_failure(b) + " ("@ + why + ")"@
}

/// Message: the working tree could not be reset.
pub open spec fn reset_failure(why: Seq<char>) -> Seq<char> {
    "failed to hard reset worktree ("@ + why + ")"@
}

/// Message: the local branch reference could not be moved back.
pub open spec fn restore_failure(b: BranchView, why: Seq<char>) -> Seq<char> {
    "failed to move "@ + b.local_name + " back ("@ + why + ")"@
}

/// Message: the local branch was fast-forwarded.
pub open spec fn fast_forwarded_message(b: BranchView) -> Seq<char> {
    "fast-forwarded "@ + b.local_name + " to "@ + b.upstream_name
}

/// A note on the status of a branch.
pub open spec fn status_note(kind: Kind, message: Seq<char>) -> NoteView {
    NoteView { group: BRANCH_STATUS_GROUP as nat, kind: kind, message: message }
}

/// A note on a failure met while working on a branch.
pub open spec fn failure_note(message: Seq<char>) -> NoteView {
    NoteView { group: BRANCH_FAILURE_GROUP as nat, kind: Kind::Failure, message: message }
}

/// The reconciliation of one tracking branch as a mathematical value.
pub ghost struct Attempt {
    /// The branch and its upstream as they were found.
    pub branch: BranchView,
    /// Whether the local branch is the checked-out branch.
    pub is_head: bool,
    /// What the caller is to do next.
    pub action: Action,
    /// The commit id that the local branch reference holds.
    pub target: git2::Oid,
    /// The notes made so far.
    pub notes: Seq<NoteView>,
}

impl Attempt {
    /// The attempt with one more note, and nothing left to do.
    pub open spec fn finish(self, note: NoteView) -> Attempt {
        Attempt { action: Action::Finish, notes: self.notes.push(note), ..self }
    }

    /// The attempt as it begins for `branch`, given whether it is checked out
    /// and how many commits it is ahead of and behind its upstream. Only a
    /// branch that is behind and not ahead is fast-forwarded; a checked-out
    /// branch has its working tree looked at first.
    pub open spec fn start(branch: BranchView, is_head: bool, graph: Result<(usize, usize), String>) -> Attempt {
        let fresh = Attempt {
            branch: branch,
            is_head: is_head,
            action: Action::Finish,
            target: branch.local_oid,
            notes: Seq::empty(),
        };
        match graph {
            Err(why) => fresh.finish(failure_note(relationship_failure(branch, why@))),
            Ok((ahead, behind)) => if ahead > 0 && behind > 0 {
                fresh.finish(
                    status_note(Kind::Failure, diverged_message(branch, ahead as nat, behind as nat)),
                )
            } else if ahead > 0 {
                fresh.finish(status_note(Kind::Warning, ahead_message(branch, ahead as nat)))
            } else if behind > 0 {
                if is_head {
                    Attempt { action: Action::QueryWorktree, ..fresh }
                } else {
                    Attempt { action: Action::MoveRef, ..fresh }
                }
            } else {
                fresh.finish(status_note(Kind::Neutral, up_to_date_message(branch)))
            },
        }
    }

    /// The attempt after `outcome` has been reported. An outcome that does
    /// not answer the action asked for changes nothing.
    pub open spec fn advance(self, outcome: Outcome) -> Attempt {
        match (self.action, outcome) {
            (Action::QueryWorktree, Outcome::Worktree(Ok(entries))) => if entries > 0 {
                self.finish(failure_note(dirty_message(self.branch)))
            } else {
                Attempt { action: Action::MoveRef, ..self }
            },
            (Action::QueryWorktree, Outcome::Worktree(Err(why))) => self.finish(
                failure_note(status_failure(self.branch, why@)),
            ),
            (Action::MoveRef, Outcome::Moved(Ok(_))) => {
                let moved = Attempt { target: self.branch.upstream_oid, ..self };
                if self.is_head {
                    Attempt { action: Action::ResetWorktree, ..moved }
                } else {
                    moved.finish(status_note(Kind::Success, fast_forwarded_message(self.branch)))
                }
            },
            (Action::MoveRef, Outcome::Moved(Err(why))) => self.finish(
                status_note(Kind::Failure, move_failure(self.branch, why@)),
            ),
            (Action::ResetWorktree, Outcome::Reset(Ok(_))) => self.finish(
                status_note(Kind::Success, fast_forwarded_message(self.branch)),
            ),
            (Action::ResetWorktree, Outcome::Reset(Err(why))) => Attempt {
                action: Action::RestoreRef,
                notes: self.notes.push(status_note(Kind::Failure, reset_failure(why@))),
                ..self
            },
            (Action::RestoreRef, Outcome::Restored(Ok(_))) => Attempt {
                action: Action::Finish,
                target: self.branch.local_oid,
                ..self
            },
            (Action::RestoreRef, Outcome::Restored(Err(why))) => self.finish(
                status_note(Kind::Failure, restore_failure(self.branch, why@)),
            ),
            _ => self,
        }
    }

    /// The attempt after `outcomes`, one after the other.
    pub open spec fn run(self, outcomes: Seq<Outcome>) -> Attempt
        decreases outcomes.len(),
    {
        if outcomes.len() == 0 {
            self
        } else {
            self.run(outcomes.drop_last()).advance(outcomes.last())
        }
    }

    /// Whether the branch may be fast-forwarded at all: it is behind its
    /// upstream and has no commit that the upstream lacks.
    pub open spec fn may_move(graph: Result<(usize, usize), String>) -> bool {
        graph matches Ok(counts) && counts.0 == 0 && counts.1 > 0
    }
}

/// An attempt that has nothing left to do stays as it is, whatever is
/// reported to it.
pub proof fn lemma_finished_stays(a: Attempt, outcomes: Seq<Outcome>)
    requires
        a.action == Action::Finish,
    ensures
        a.run(outcomes) == a,
    decreases outcomes.len(),
{
    if outcomes.len() > 0 {
        lemma_finished_stays(a, outcomes.drop_last());
    }
}

/// Divergence: a branch that is both ahead of and behind its upstream gets
/// exactly one failure note, and its reference is never moved, whatever is
/// reported afterwards.
pub proof fn lemma_diverged_is_reported(
    branch: BranchView,
    is_head: bool,
    ahead: usize,
    behind: usize,
    outcomes: Seq<Outcome>,
)
    requires
        ahead > 0,
        behind > 0,
    ensures
        ({
            let end = Attempt::start(branch, is_head, Ok((ahead, behind))).run(outcomes);
            &&& end.action == Action::Finish
            &&& end.target == branch.local_oid
            &&& end.notes == seq![
                status_note(Kind::Failure, diverged_message(branch, ahead as nat, behind as nat)),
            ]
        }),
{
    let begun = Attempt::start(branch, is_head, Ok((ahead, behind)));
    lemma_finished_stays(begun, outcomes);
    assert(begun.notes =~= seq![
        status_note(Kind::Failure, diverged_message(branch, ahead as nat, behind as nat)),
    ]);
}

/// The reference of a branch is only ever moved where the branch is behind
/// its upstream and not ahead of it, and then to the upstream commit id:
/// whatever is reported, a branch with commits of its own, or one whose
/// relationship is unknown, keeps its commit id and is never asked to move.
pub proof fn lemma_moves_only_when_behind(
    branch: BranchView,
    is_head: bool,
    graph: Result<(usize, usize), String>,
    outcomes: Seq<Outcome>,
)
    ensures
        ({
            let end = Attempt::start(branch, is_head, graph).run(outcomes);
            &&& end.branch == branch
            &&& end.is_head == is_head
            &&& end.target == branch.local_oid || end.target == branch.upstream_oid
            &&& !Attempt::may_move(graph) ==> end.target == branch.local_oid && end.action
                == Action::Finish
        }),
    decreases outcomes.len(),
{
    if outcomes.len() > 0 {
        lemma_moves_only_when_behind(branch, is_head, graph, outcomes.drop_last());
    }
}

/// A checked-out branch is only ever moved after its working tree was
/// reported clean: as long as no clean report has come, the reference keeps
/// its commit id.
pub proof fn lemma_head_moves_only_when_clean(
    branch: BranchView,
    graph: Result<(usize, usize), String>,
    outcomes: Seq<Outcome>,
)
    requires
        forall|k: int| 0 <= k < outcomes.len() ==> outcomes[k] != Outcome::Worktree(Ok(0)),
    ensures
        ({
            let end = Attempt::start(branch, true, graph).run(outcomes);
            &&& end.target == branch.local_oid
            &&& end.action == Action::Finish || end.action == Action::QueryWorktree
        }),
    decreases outcomes.len(),
{
    if outcomes.len() > 0 {
        assert forall|k: int| 0 <= k < outcomes.drop_last().len() implies outcomes.drop_last()[k]
            != Outcome::Worktree(Ok(0)) by {
            assert(outcomes.drop_last()[k] == outcomes[k]);
        }
        lemma_head_moves_only_when_clean(branch, graph, outcomes.drop_last());
        let before = Attempt::start(branch, true, graph).run(outcomes.drop_last());
        lemma_moves_only_when_behind(branch, true, graph, outcomes.drop_last());
        assert(outcomes.last() == outcomes[outcomes.len() - 1]);
    }
}

/// Fast-forward rule, dirty working tree: a checked-out branch that is behind
/// its upstream and whose working tree is not clean keeps its commit id, gets
/// one failure note and is never asked to move.
pub proof fn lemma_dirty_head_is_kept(
    branch: BranchView,
    behind: usize,
    entries: usize,
    outcomes: Seq<Outcome>,
)
    requires
        behind > 0,
        entries > 0,
    ensures
        Attempt::start(branch, true, Ok((0usize, behind))).action == Action::QueryWorktree,
        ({
            let end = Attempt::start(branch, true, Ok((0usize, behind))).advance(
                Outcome::Worktree(Ok(entries)),
            ).run(outcomes);
            &&& end.action == Action::Finish
            &&& end.target == branch.local_oid
            &&& end.notes == seq![failure_note(dirty_message(branch))]
        }),
{
    let begun = Attempt::start(branch, true, Ok((0usize, behind)));
    let told = begun.advance(Outcome::Worktree(Ok(entries)));
    lemma_finished_stays(told, outcomes);
    assert(told.notes =~= seq![failure_note(dirty_message(branch))]);
}

/// Fast-forward rule, branch not checked out: where the reference is moved,
/// the branch holds the upstream commit id afterwards and gets one success
/// note.
pub proof fn lemma_other_branch_is_forwarded(branch: BranchView, behind: usize)
    requires
        behind > 0,
    ensures
        Attempt::start(branch, false, Ok((0usize, behind))).action == Action::MoveRef,
        ({
            let end = Attempt::start(branch, false, Ok((0usize, behind))).advance(
                Outcome::Moved(Ok(())),
            );
            &&& end.action == Action::Finish
            &&& end.target == branch.upstream_oid
            &&& end.notes == seq![status_note(Kind::Success, fast_forwarded_message(branch))]
        }),
{
    let end = Attempt::start(branch, false, Ok((0usize, behind))).advance(Outcome::Moved(Ok(())));
    assert(end.notes =~= seq![status_note(Kind::Success, fast_forwarded_message(branch))]);
}

/// Fast-forward rule, clean checked-out branch: the working tree is looked
/// at, the reference is moved, the working tree is reset; then the branch
/// holds the upstream commit id and gets one success note.
pub proof fn lemma_clean_head_is_forwarded(branch: BranchView, behind: usize)
    requires
        behind > 0,
    ensures
        ({
            let begun = Attempt::start(branch, true, Ok((0usize, behind)));
            let looked = begun.advance(Outcome::Worktree(Ok(0usize)));
            let moved = looked.advance(Outcome::Moved(Ok(())));
            let end = moved.advance(Outcome::Reset(Ok(())));
            &&& begun.action == Action::QueryWorktree
            &&& looked.action == Action::MoveRef
            &&& looked.target == branch.local_oid
            &&& moved.action == Action::ResetWorktree
            &&& end.action == Action::Finish
            &&& end.target == branch.upstream_oid
            &&& end.notes == seq![status_note(Kind::Success, fast_forwarded_message(branch))]
        }),
{
    let begun = Attempt::start(branch, true, Ok((0usize, behind)));
    let end = begun.advance(Outcome::Worktree(Ok(0usize))).advance(Outcome::Moved(Ok(()))).advance(
        Outcome::Reset(Ok(())),
    );
    assert(end.notes =~= seq![status_note(Kind::Success, fast_forwarded_message(branch))]);
}

/// No partial state: where a step of the fast-forward fails and, if the
/// reference had been moved, it is moved back, the branch holds the commit id
/// it had, and the failure is noted.
pub proof fn lemma_failed_step_restores(branch: BranchView, behind: usize, why: String)
    requires
        behind > 0,
    ensures
        ({
            let moved = Attempt::start(branch, true, Ok((0usize, behind))).advance(
                Outcome::Worktree(Ok(0usize)),
            ).advance(Outcome::Moved(Ok(())));
            let failed = moved.advance(Outcome::Reset(Err(why)));
            let end = failed.advance(Outcome::Restored(Ok(())));
            &&& failed.action == Action::RestoreRef
            &&& end.action == Action::Finish
            &&& end.target == branch.local_oid
            &&& end.notes == seq![status_note(Kind::Failure, reset_failure(why@))]
        }),
        ({
            let end = Attempt::start(branch, false, Ok((0usize, behind))).advance(
                Outcome::Moved(Err(why)),
            );
            &&& end.action == Action::Finish
            &&& end.target == branch.local_oid
            &&& end.notes == seq![status_note(Kind::Failure, move_failure(branch, why@))]
        }),
{
    let moved = Attempt::start(branch, true, Ok((0usize, behind))).advance(
        Outcome::Worktree(Ok(0usize)),
    ).advance(Outcome::Moved(Ok(())));
    let end = moved.advance(Outcome::Reset(Err(why))).advance(Outcome::Restored(Ok(())));
    assert(end.notes =~= seq![status_note(Kind::Failure, reset_failure(why@))]);
    let other = Attempt::start(branch, false, Ok((0usize, behind))).advance(Outcome::Moved(Err(why)));
    assert(other.notes =~= seq![status_note(Kind::Failure, move_failure(branch, why@))]);
}


/// Returns the text that begins every report of a failed fast-forward.
fn fast_forward_failure_text(local_name: &str, upstream_name: &str) -> (r: String)
    ensures
        r@ == "failed to fast-forward "@ + local_name@ + " to "@ + upstream_name@,
{
    let mut m = String::from_str("failed to fast-forward ");
    m.append(local_name);
    m.append(" to ");
    m.append(upstream_name);
    m
}

/// The reconciliation of one tracking branch: it says what is to be done
/// next, takes what came of it, and makes the notes. It decides; the caller
/// acts on the repository.
pub struct FastForward {
    /// The branch and its upstream as they were found.
    branch: TrackingBranch,
    /// Whether the local branch is the checked-out branch.
    is_head: bool,
    /// What the caller is to do next.
    action: Action,
    /// The commit id that the local branch reference holds.
    target: git2::Oid,
    /// The notes made so far.
    notes: Summary,
}

impl View for FastForward {
    type V = Attempt;

    closed spec fn view(&self) -> Attempt {
        Attempt {
            branch: self.branch@,
            is_head: self.is_head,
            action: self.action,
            target: self.target,
            notes: self.notes@,
        }
    }
}

impl FastForward {
    /// Begins the reconciliation of `branch`, given whether it is the
    /// checked-out branch and the numbers of commits by which it is ahead of
    /// and behind its upstream, or the reason why they could not be had.
    pub fn start(branch: TrackingBranch, is_head: bool, graph: Result<(usize, usize), String>) -> (r:
        Self)
        ensures
            r@ == Attempt::start(branch@, is_head, graph),
    {
        let local_name = branch.local_name();
        let upstream_name = branch.upstream_name();
        let target = branch.local_oid();
        let mut notes = Summary::new();
        let mut action = Action::Finish;
        match graph {
            Err(why) => {
                let mut m = String::from_str("failed to determine relationship between local branch ");
                m.append(local_name.as_str());
                m.append(" and upstream branch ");
                m.append(upstream_name.as_str());
                m.append(" (");
                m.append(why.as_str());
                m.append(")");
                notes.push_note(Note::new(BRANCH_FAILURE_GROUP, Kind::Failure, m.as_str()));
            },
            Ok((ahead, behind)) => {
                if ahead > 0 && behind > 0 {
                    let mut m = local_name.clone();
                    m.append(" has diverged from ");
                    m.append(upstream_name.as_str());
                    m.append(" (");
                    m.append(decimal_string(ahead).as_str());
                    m.append(" and ");
                    m.append(decimal_string(behind).as_str());
                    m.append(" commits)");
                    notes.push_note(Note::new(BRANCH_STATUS_GROUP, Kind::Failure, m.as_str()));
                } else if ahead > 0 {
                    let s = if ahead == 1 {
                        ""
                    } else {
                        "s"
                    };
                    let mut m = local_name.clone();
                    m.append(" is ahead of ");
                    m.append(upstream_name.as_str());
                    m.append(" by ");
                    m.append(decimal_string(ahead).as_str());
                    m.append(" commit");
                    m.append(s);
                    notes.push_note(Note::new(BRANCH_STATUS_GROUP, Kind::Warning, m.as_str()));
                } else if behind > 0 {
                    if is_head {
                        action = Action::QueryWorktree;
                    } else {
                        action = Action::MoveRef;
                    }
                } else {
                    let mut m = local_name.clone();
                    m.append(" is up to date with ");
                    m.append(upstream_name.as_str());
                    notes.push_note(Note::new(BRANCH_STATUS_GROUP, Kind::Neutral, m.as_str()));
                }
            },
        }
        let r = Self { branch: branch, is_head: is_head, action: action, target: target, notes: notes };
        assert(r@.notes =~= Attempt::start(branch@, is_head, graph).notes);
        r
    }

    /// Returns what the caller is to do next.
    pub fn action(&self) -> (r: Action)
        ensures
            r == self@.action,
    {
        self.action
    }

    /// Returns the branch that is being reconciled.
    pub fn branch(&self) -> (r: &TrackingBranch)
        ensures
            r@ == self@.branch,
    {
        &self.branch
    }

    /// Returns whether the local branch is the checked-out branch.
    pub fn is_head(&self) -> (r: bool)
        ensures
            r == self@.is_head,
    {
        self.is_head
    }

    /// Returns the commit id that the local branch reference holds.
    pub fn target(&self) -> (r: git2::Oid)
        ensures
            r == self@.target,
    {
        self.target
    }

    /// Returns the notes made so far.
    pub fn notes(&self) -> (r: &Summary)
        ensures
            r@ == self@.notes,
    {
        &self.notes
    }

    /// Adds a note and leaves nothing to do.
    fn finish(&mut self, group: usize, kind: Kind, message: &str)
        ensures
            final(self)@ == old(self)@.finish(
                NoteView { group: group as nat, kind: kind, message: message@ },
            ),
    {
        self.notes.push_note(Note::new(group, kind, message));
        self.action = Action::Finish;
    }

    /// Adds the note of a successful fast-forward and leaves nothing to do.
    fn succeed(&mut self)
        ensures
            final(self)@ == old(self)@.finish(
                status_note(Kind::Success, fast_forwarded_message(old(self)@.branch)),
            ),
    {
        let mut m = String::from_str("fast-forwarded ");
        m.append(self.branch.local_name().as_str());
        m.append(" to ");
        m.append(self.branch.upstream_name().as_str());
        self.finish(BRANCH_STATUS_GROUP, Kind::Success, m.as_str());
    }

    /// Takes what came of the action that was asked for and decides what is
    /// next. An outcome that does not answer that action changes nothing.
    pub fn advance(&mut self, outcome: Outcome)
        ensures
            final(self)@ == old(self)@.advance(outcome),
    {
        let local_name = self.branch.local_name();
        let upstream_name = self.branch.upstream_name();
        match (self.action, outcome) {
            (Action::QueryWorktree, Outcome::Worktree(Ok(entries))) => {
                if entries > 0 {
                    let mut m = fast_forward_failure_text(local_name.as_str(), upstream_name.as_str());
                    m.append(" (worktree is dirty)");
                    self.finish(BRANCH_FAILURE_GROUP, Kind::Failure, m.as_str());
                } else {
                    self.action = Action::MoveRef;
                }
            },
            (Action::QueryWorktree, Outcome::Worktree(Err(why))) => {
                let mut m = fast_forward_failure_text(local_name.as_str(), upstream_name.as_str());
                m.append(" (could not get worktree status) (");
                m.append(why.as_str());
                m.append(")");
                self.finish(BRANCH_FAILURE_GROUP, Kind::Failure, m.as_str());
            },
            (Action::MoveRef, Outcome::Moved(Ok(_))) => {
                self.target = self.branch.upstream_oid();
                if self.is_head {
                    self.action = Action::ResetWorktree;
                } else {
                    self.succeed();
                }
            },
            (Action::MoveRef, Outcome::Moved(Err(why))) => {
                let mut m = fast_forward_failure_text(local_name.as_str(), upstream_name.as_str());
                m.append(" (");
                m.append(why.as_str());
                m.append(")");
                self.finish(BRANCH_STATUS_GROUP, Kind::Failure, m.as_str());
            },
            (Action::ResetWorktree, Outcome::Reset(Ok(_))) => {
                self.succeed();
            },
            (Action::ResetWorktree, Outcome::Reset(Err(why))) => {
                let mut m = String::from_str("failed to hard reset worktree (");
                m.append(why.as_str());
                m.append(")");
                self.notes.push_note(Note::new(BRANCH_STATUS_GROUP, Kind::Failure, m.as_str()));
                self.action = Action::RestoreRef;
            },
            (Action::RestoreRef, Outcome::Restored(Ok(_))) => {
                self.target = self.branch.local_oid();
                self.action = Action::Finish;
            },
            (Action::RestoreRef, Outcome::Restored(Err(why))) => {
                let mut m = String::from_str("failed to move ");
                m.append(local_name.as_str());
                m.append(" back (");
                m.append(why.as_str());
                m.append(")");
                self.finish(BRANCH_STATUS_GROUP, Kind::Failure, m.as_str());
            },
            _ => {},
        }
    }
}

} // verus!
