use git2::{Oid, Status};
use mgit::app::{Error, Repo};
use mgit::cmd::config::{info, print_info, show_tags};
use mgit::cmd::status::{
    branch_note, count_matching, note_for_status, note_worktree, print_repo, summarize, Followed,
    INDEXED, MODIFIED, UNTRACKED,
};
use mgit::ui::{Kind, Note, Summary, TrackingBranch};
use mgit::wt::{is_dirty, Query, Question, Show};

fn branch(local: &str, upstream: &str) -> TrackingBranch {
    let oid = Oid::from_str("1111111111111111111111111111111111111111").unwrap();
    TrackingBranch::new(local, oid, upstream, oid)
}

fn entries() -> Vec<u32> {
    vec![
        Status::INDEX_NEW.bits(),
        (Status::INDEX_MODIFIED | Status::WT_MODIFIED).bits(),
        Status::WT_NEW.bits(),
        Status::WT_DELETED.bits(),
        Status::WT_RENAMED.bits(),
        Status::WT_TYPECHANGE.bits(),
        Status::INDEX_TYPECHANGE.bits(),
        Status::IGNORED.bits(),
        Status::CONFLICTED.bits(),
        Status::CURRENT.bits(),
        Status::WT_NEW.bits(),
    ]
}

#[test]
fn flags_are_those_of_git() {
    assert_eq!(
        INDEXED,
        (Status::INDEX_DELETED
            | Status::INDEX_MODIFIED
            | Status::INDEX_NEW
            | Status::INDEX_RENAMED
            | Status::INDEX_TYPECHANGE)
            .bits()
    );
    assert_eq!(
        MODIFIED,
        (Status::WT_DELETED | Status::WT_MODIFIED | Status::WT_RENAMED | Status::WT_TYPECHANGE).bits()
    );
    assert_eq!(UNTRACKED, Status::WT_NEW.bits());
}

#[test]
fn files_are_counted_by_their_flags() {
    let entries = entries();
    assert_eq!(count_matching(&entries, INDEXED), 3);
    assert_eq!(count_matching(&entries, MODIFIED), 4);
    assert_eq!(count_matching(&entries, UNTRACKED), 2);
    assert_eq!(count_matching(&entries, 0), 0);
    assert_eq!(count_matching(&Vec::new(), INDEXED), 0);
}

#[test]
fn status_note_counts_files() {
    let none = note_for_status(10, 0, "changed in index but uncommitted");
    assert_eq!(none.message(), "0 files are changed in index but uncommitted");
    assert!(*none.kind() == Kind::Neutral);
    assert_eq!(none.group(), 10);
    let one = note_for_status(11, 1, "modified");
    assert_eq!(one.message(), "1 file is modified");
    assert!(*one.kind() == Kind::Failure);
    let many = note_for_status(12, 1024, "untracked");
    assert_eq!(many.message(), "1024 files are untracked");
    assert!(*many.kind() == Kind::Failure);
}

#[test]
fn worktree_is_noted() {
    let mut summary = Summary::new();
    note_worktree(&mut summary, Some(&entries()));
    let notes = summary.notes();
    assert_eq!(notes.len(), 3);
    assert_eq!(notes[0].message(), "3 files are changed in index but uncommitted");
    assert_eq!(notes[0].group(), 10);
    assert_eq!(notes[1].message(), "4 files are modified");
    assert_eq!(notes[1].group(), 11);
    assert_eq!(notes[2].message(), "2 files are untracked");
    assert_eq!(notes[2].group(), 12);

    let mut summary = Summary::new();
    note_worktree(&mut summary, None);
    assert_eq!(summary.notes().len(), 1);
    assert_eq!(summary.notes()[0].message(), "failed to get status info");
    assert_eq!(summary.notes()[0].group(), 0);
    assert!(summary.kind() == Kind::Failure);
}

#[test]
fn branch_is_noted_by_its_relationship() {
    let b = branch("dev", "origin/dev");
    let note = branch_note(&b, &Ok((0, 0)));
    assert_eq!(note.message(), "dev is up to date with origin/dev");
    assert!(*note.kind() == Kind::Neutral);
    assert_eq!(note.group(), 110);
    let note = branch_note(&b, &Ok((1, 0)));
    assert_eq!(note.message(), "dev is ahead of origin/dev by 1 commit");
    assert!(*note.kind() == Kind::Warning);
    let note = branch_note(&b, &Ok((0, 1)));
    assert_eq!(note.message(), "dev is behind origin/dev by 1 commits");
    assert!(*note.kind() == Kind::Failure);
    let note = branch_note(&b, &Ok((0, 30)));
    assert_eq!(note.message(), "dev is behind origin/dev by 30 commits");
    let note = branch_note(&b, &Ok((2, 3)));
    assert_eq!(note.message(), "dev has diverged from origin/dev (2 and 3 commits)");
    assert!(*note.kind() == Kind::Failure);
    assert_eq!(note.group(), 110);
    let note = branch_note(&b, &Err("missing".to_owned()));
    assert_eq!(
        note.message(),
        "failed to determine relationship between local branch dev and upstream branch origin/dev (missing)"
    );
    assert_eq!(note.group(), 1);
}

#[test]
fn status_is_summarized() {
    let followed = vec![
        Followed { branch: branch("dev", "origin/dev"), graph: Ok((0, 0)) },
        Followed { branch: branch("master", "origin/master"), graph: Ok((1, 0)) },
    ];
    let errors = vec![Error::new("local branch name is not valid utf-8")];
    let summary = summarize(Some(&Vec::new()), &followed, &errors);
    let messages: Vec<&str> = summary.notes().iter().map(|n| n.message()).collect();
    assert_eq!(
        messages,
        vec![
            "0 files are changed in index but uncommitted",
            "0 files are modified",
            "0 files are untracked",
            "dev is up to date with origin/dev",
            "master is ahead of origin/master by 1 commit",
            "local branch name is not valid utf-8",
        ]
    );
    assert!(summary.kind() == Kind::Failure);
    assert_eq!(summary.notes()[5].group(), 1);
}

#[test]
fn repository_is_printed_with_its_notes() {
    let r = Repo::new("/c", "~/src/mgit", "/home/me/src/mgit", None, None, &[]);
    let mut summary = Summary::new();
    summary.push_note(Note::new(110, Kind::Warning, "dev is ahead of origin/dev by 1 commit"));
    summary.push_note(Note::new(10, Kind::Neutral, "0 files are changed in index but uncommitted"));
    summary.push_note(Note::new(11, Kind::Failure, "1 file is modified"));
    assert_eq!(
        print_repo(&r, "mgit", &summary, false),
        "\u{1b}[1;31m\u{2022}\u{1b}[0m \u{1b}[1;31mmgit\u{1b}[0m\n  \u{2192} 1 file is modified\n  \u{2192} dev is ahead of origin/dev by 1 commit\n"
    );
    assert_eq!(
        print_repo(&r, "mgit", &summary, true),
        "\u{1b}[1;31m\u{2022}\u{1b}[0m \u{1b}[1;31mmgit\u{1b}[0m \n  \u{2022} /home/me/src/mgit\n  \u{2192} 0 files are changed in index but uncommitted\n\u{1b}[31m  \u{2192} 1 file is modified\u{1b}[0m\n\u{1b}[33m  \u{2192} dev is ahead of origin/dev by 1 commit\u{1b}[0m\n"
    );
    let clean = Summary::new();
    assert_eq!(print_repo(&r, "mgit", &clean, false), "\u{1b}[1;32m\u{2022}\u{1b}[0m \u{1b}[1;32mmgit\u{1b}[0m\n");
    let mut warned = Summary::new();
    warned.push_note(Note::new(110, Kind::Warning, "w"));
    assert!(print_repo(&r, "mgit", &warned, false).starts_with("\u{1b}[1;33m\u{2022}\u{1b}[0m "));
    let mut good = Summary::new();
    good.push_note(Note::new(110, Kind::Success, "s"));
    assert_eq!(
        print_repo(&r, "mgit", &good, true),
        "\u{1b}[1;32m\u{2022}\u{1b}[0m \u{1b}[1;32mmgit\u{1b}[0m \n  \u{2022} /home/me/src/mgit\n  \u{2192} s\n"
    );
}

#[test]
fn questions_of_the_working_tree() {
    assert!(
        Question::Uncommitted.query()
            == Query { show: Show::Index, include_untracked: false, recurse_untracked_dirs: false }
    );
    assert!(
        Question::Modified.query()
            == Query { show: Show::Workdir, include_untracked: false, recurse_untracked_dirs: false }
    );
    assert!(
        Question::Untracked.query()
            == Query { show: Show::Workdir, include_untracked: true, recurse_untracked_dirs: true }
    );
    assert!(
        Question::Dirty.query()
            == Query { show: Show::IndexAndWorkdir, include_untracked: true, recurse_untracked_dirs: false }
    );
    let entries = entries();
    assert_eq!(Question::Uncommitted.answer(&entries), 11);
    assert_eq!(Question::Modified.answer(&entries), 4);
    assert_eq!(Question::Untracked.answer(&entries), 2);
    assert_eq!(Question::Dirty.answer(&entries), 11);
    assert!(is_dirty(&entries));
    assert!(!is_dirty(&Vec::new()));
}

#[test]
fn tags_are_shown_in_a_row() {
    assert_eq!(show_tags(&Vec::new()), "<none set>");
    assert_eq!(show_tags(&vec!["work"]), "work");
    assert_eq!(show_tags(&vec!["work", "play", "x"]), "work, play, x");
}

fn listing(map: &indexmap::IndexMap<String, String>) -> Vec<(String, String)> {
    map.iter().map(|(k, v)| (k.clone(), v.clone())).collect()
}

fn pair(key: &str, value: &str) -> (String, String) {
    (key.to_owned(), value.to_owned())
}

#[test]
fn what_is_set_is_shown() {
    let bare = Repo::new("/c/repos.conf", "~/src/mgit", "/home/me/src/mgit", None, None, &[]);
    assert_eq!(
        listing(&info(&bare, false)),
        vec![pair("config", "/c/repos.conf"), pair("path", "/home/me/src/mgit")]
    );
    assert_eq!(
        listing(&info(&bare, true)),
        vec![
            pair("config", "/c/repos.conf"),
            pair("path", "/home/me/src/mgit"),
            pair("name", "mgit (default)"),
            pair("symbol", "\u{2022} (default)"),
            pair("tags", "<none set>"),
        ]
    );
    let full = Repo::new("/c/repos.conf", "~/src/mgit", "/home/me/src/mgit", Some("M"), Some("*"), &["a", "b"]);
    let expected = vec![
        pair("config", "/c/repos.conf"),
        pair("path", "/home/me/src/mgit"),
        pair("name", "M"),
        pair("symbol", "*"),
        pair("tags", "a, b"),
    ];
    assert_eq!(listing(&info(&full, false)), expected);
    assert_eq!(listing(&info(&full, true)), expected);
}

#[test]
fn settings_are_printed_as_a_tree() {
    let full = Repo::new("/c", "~/src/mgit", "/abs", Some("M"), None, &["a"]);
    assert_eq!(
        print_info("~/src/mgit", &info(&full, false)),
        "\u{1b}[1;35m~/src/mgit\u{1b}[0m\n\u{1b}[34m  \u{2520}\u{2500} config: \u{1b}[0m/c\n\u{1b}[34m  \u{2520}\u{2500}\u{2500}\u{2500} path: \u{1b}[0m/abs\n\u{1b}[34m  \u{2520}\u{2500}\u{2500}\u{2500} name: \u{1b}[0mM\n\u{1b}[34m  \u{2516}\u{2500}\u{2500}\u{2500} tags: \u{1b}[0ma\n"
    );
    let mut map = indexmap::IndexMap::new();
    map.insert("k".to_owned(), "v".to_owned());
    map.insert("longer than six".to_owned(), "w".to_owned());
    map.insert("k".to_owned(), "again".to_owned());
    assert_eq!(
        print_info("p", &map),
        "\u{1b}[1;35mp\u{1b}[0m\n\u{1b}[34m  \u{2520}\u{2500}\u{2500}\u{2500}\u{2500}\u{2500}\u{2500} k: \u{1b}[0magain\n\u{1b}[34m  \u{2516}\u{2500} longer than six: \u{1b}[0mw\n"
    );
    assert_eq!(print_info("p", &indexmap::IndexMap::new()), "\u{1b}[1;35mp\u{1b}[0m\n");
}
