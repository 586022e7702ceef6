use git2::Oid;
use mgit::cmd::pull::reconcile::{reflog_message, Action, FastForward, Outcome};
use mgit::ui::{Kind, TrackingBranch};

fn local() -> Oid {
    Oid::from_str("1111111111111111111111111111111111111111").unwrap()
}

fn upstream() -> Oid {
    Oid::from_str("2222222222222222222222222222222222222222").unwrap()
}

fn branch() -> TrackingBranch {
    TrackingBranch::new("master", local(), "origin/master", upstream())
}

fn only_note(ff: &FastForward) -> (usize, Kind, String) {
    let notes = ff.notes().notes();
    assert_eq!(notes.len(), 1);
    (notes[0].group(), *notes[0].kind(), notes[0].message().to_owned())
}

#[test]
fn up_to_date_branch_is_reported() {
    let ff = FastForward::start(branch(), true, Ok((0, 0)));
    assert!(ff.action() == Action::Finish);
    assert_eq!(ff.target(), local());
    let (group, kind, message) = only_note(&ff);
    assert_eq!(group, 101);
    assert!(kind == Kind::Neutral);
    assert_eq!(message, "master is up to date with origin/master");
}

#[test]
fn branch_ahead_is_a_warning() {
    let ff = FastForward::start(branch(), false, Ok((1, 0)));
    assert!(ff.action() == Action::Finish);
    let (group, kind, message) = only_note(&ff);
    assert_eq!(group, 101);
    assert!(kind == Kind::Warning);
    assert_eq!(message, "master is ahead of origin/master by 1 commit");

    let ff = FastForward::start(branch(), false, Ok((12, 0)));
    let (_, _, message) = only_note(&ff);
    assert_eq!(message, "master is ahead of origin/master by 12 commits");
    assert_eq!(ff.target(), local());
}

#[test]
fn diverged_branch_is_one_failure_and_never_moves() {
    let mut ff = FastForward::start(branch(), true, Ok((3, 205)));
    assert!(ff.action() == Action::Finish);
    assert_eq!(ff.target(), local());
    let (group, kind, message) = only_note(&ff);
    assert_eq!(group, 101);
    assert!(kind == Kind::Failure);
    assert_eq!(message, "master has diverged from origin/master (3 and 205 commits)");
    // Whatever is reported afterwards, nothing changes.
    ff.advance(Outcome::Worktree(Ok(0)));
    ff.advance(Outcome::Moved(Ok(())));
    ff.advance(Outcome::Reset(Ok(())));
    ff.advance(Outcome::Restored(Ok(())));
    assert!(ff.action() == Action::Finish);
    assert_eq!(ff.target(), local());
    assert_eq!(ff.notes().notes().len(), 1);
}

#[test]
fn unknown_relationship_is_a_failure() {
    let ff = FastForward::start(branch(), false, Err("object not found".to_owned()));
    assert!(ff.action() == Action::Finish);
    assert_eq!(ff.target(), local());
    let (group, kind, message) = only_note(&ff);
    assert_eq!(group, 1);
    assert!(kind == Kind::Failure);
    assert_eq!(
        message,
        "failed to determine relationship between local branch master and upstream branch origin/master (object not found)"
    );
}

#[test]
fn dirty_head_is_left_alone() {
    let mut ff = FastForward::start(branch(), true, Ok((0, 2)));
    assert!(ff.action() == Action::QueryWorktree);
    assert_eq!(ff.notes().notes().len(), 0);
    ff.advance(Outcome::Worktree(Ok(3)));
    assert!(ff.action() == Action::Finish);
    assert_eq!(ff.target(), local());
    let (group, kind, message) = only_note(&ff);
    assert_eq!(group, 1);
    assert!(kind == Kind::Failure);
    assert_eq!(message, "failed to fast-forward master to origin/master (worktree is dirty)");
    ff.advance(Outcome::Moved(Ok(())));
    assert_eq!(ff.target(), local());
    assert_eq!(ff.notes().notes().len(), 1);
}

#[test]
fn unreadable_worktree_blocks_the_fast_forward() {
    let mut ff = FastForward::start(branch(), true, Ok((0, 2)));
    ff.advance(Outcome::Worktree(Err("index is locked".to_owned())));
    assert!(ff.action() == Action::Finish);
    assert_eq!(ff.target(), local());
    let (group, kind, message) = only_note(&ff);
    assert_eq!(group, 1);
    assert!(kind == Kind::Failure);
    assert_eq!(
        message,
        "failed to fast-forward master to origin/master (could not get worktree status) (index is locked)"
    );
}

#[test]
fn clean_head_is_fast_forwarded_and_reset() {
    let mut ff = FastForward::start(branch(), true, Ok((0, 1)));
    assert!(ff.action() == Action::QueryWorktree);
    ff.advance(Outcome::Worktree(Ok(0)));
    assert!(ff.action() == Action::MoveRef);
    assert_eq!(ff.target(), local());
    ff.advance(Outcome::Moved(Ok(())));
    assert!(ff.action() == Action::ResetWorktree);
    assert_eq!(ff.target(), upstream());
    assert_eq!(ff.notes().notes().len(), 0);
    ff.advance(Outcome::Reset(Ok(())));
    assert!(ff.action() == Action::Finish);
    assert_eq!(ff.target(), upstream());
    let (group, kind, message) = only_note(&ff);
    assert_eq!(group, 101);
    assert!(kind == Kind::Success);
    assert_eq!(message, "fast-forwarded master to origin/master");
}

#[test]
fn other_branch_is_fast_forwarded_without_reset() {
    let mut ff = FastForward::start(branch(), false, Ok((0, 7)));
    assert!(ff.action() == Action::MoveRef);
    assert!(!ff.is_head());
    assert_eq!(ff.branch().local_name(), "master");
    ff.advance(Outcome::Moved(Ok(())));
    assert!(ff.action() == Action::Finish);
    assert_eq!(ff.target(), upstream());
    let (_, kind, message) = only_note(&ff);
    assert!(kind == Kind::Success);
    assert_eq!(message, "fast-forwarded master to origin/master");
}

#[test]
fn failed_move_leaves_the_branch() {
    let mut ff = FastForward::start(branch(), false, Ok((0, 7)));
    ff.advance(Outcome::Moved(Err("reference is locked".to_owned())));
    assert!(ff.action() == Action::Finish);
    assert_eq!(ff.target(), local());
    let (group, kind, message) = only_note(&ff);
    assert_eq!(group, 101);
    assert!(kind == Kind::Failure);
    assert_eq!(message, "failed to fast-forward master to origin/master (reference is locked)");
}

#[test]
fn failed_reset_moves_the_branch_back() {
    let mut ff = FastForward::start(branch(), true, Ok((0, 1)));
    ff.advance(Outcome::Worktree(Ok(0)));
    ff.advance(Outcome::Moved(Ok(())));
    ff.advance(Outcome::Reset(Err("cannot write".to_owned())));
    assert!(ff.action() == Action::RestoreRef);
    assert_eq!(ff.target(), upstream());
    ff.advance(Outcome::Restored(Ok(())));
    assert!(ff.action() == Action::Finish);
    assert_eq!(ff.target(), local());
    let (group, kind, message) = only_note(&ff);
    assert_eq!(group, 101);
    assert!(kind == Kind::Failure);
    assert_eq!(message, "failed to hard reset worktree (cannot write)");
}

#[test]
fn failed_restore_is_noted() {
    let mut ff = FastForward::start(branch(), true, Ok((0, 1)));
    ff.advance(Outcome::Worktree(Ok(0)));
    ff.advance(Outcome::Moved(Ok(())));
    ff.advance(Outcome::Reset(Err("cannot write".to_owned())));
    ff.advance(Outcome::Restored(Err("locked".to_owned())));
    assert!(ff.action() == Action::Finish);
    assert_eq!(ff.target(), upstream());
    let notes = ff.notes().notes();
    assert_eq!(notes.len(), 2);
    assert_eq!(notes[1].message(), "failed to move master back (locked)");
    assert!(*notes[1].kind() == Kind::Failure);
}

#[test]
fn outcome_that_was_not_asked_for_changes_nothing() {
    let mut ff = FastForward::start(branch(), true, Ok((0, 1)));
    ff.advance(Outcome::Moved(Ok(())));
    assert!(ff.action() == Action::QueryWorktree);
    assert_eq!(ff.target(), local());
    ff.advance(Outcome::Reset(Err("x".to_owned())));
    assert!(ff.action() == Action::QueryWorktree);
    assert_eq!(ff.notes().notes().len(), 0);
}

#[test]
fn moves_of_a_reference_are_entered_in_the_reflog() {
    assert_eq!(reflog_message(Action::MoveRef), Some("mgit: fast-forward"));
    assert_eq!(reflog_message(Action::RestoreRef), Some("mgit: undo fast-forward"));
    assert_eq!(reflog_message(Action::Finish), None);
    assert_eq!(reflog_message(Action::QueryWorktree), None);
    assert_eq!(reflog_message(Action::ResetWorktree), None);
}
