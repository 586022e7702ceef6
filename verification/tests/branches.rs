use git2::Oid;
use mgit::ui::{BranchProbe, LocalProbe, NameProbe, TrackingBranches, UpstreamProbe};

fn oid(digit: char) -> Oid {
    let text: String = std::iter::repeat(digit).take(40).collect();
    Oid::from_str(&text).unwrap()
}

fn tracking(local: &str, upstream: &str) -> BranchProbe {
    BranchProbe::Local(LocalProbe {
        name: NameProbe::Text(local.to_owned()),
        oid: Some(oid('1')),
        upstream: Some(UpstreamProbe { name: NameProbe::Text(upstream.to_owned()), oid: Some(oid('2')) }),
    })
}

fn errors(branches: &TrackingBranches) -> Vec<String> {
    branches.errors().iter().map(|e| e.message().to_owned()).collect()
}

#[test]
fn valid_branches_are_yielded_in_order() {
    let listing = Ok(vec![tracking("master", "origin/master"), tracking("dev", "fork/dev")]);
    let mut branches = TrackingBranches::for_repository(listing).ok().unwrap();
    assert!(errors(&branches).is_empty());
    let first = branches.next().unwrap();
    assert_eq!(first.local_name(), "master");
    assert_eq!(first.upstream_name(), "origin/master");
    assert_eq!(first.local_oid(), oid('1'));
    assert_eq!(first.upstream_oid(), oid('2'));
    let second = branches.next().unwrap();
    assert_eq!(second.local_name(), "dev");
    assert!(branches.next().is_none());
    assert!(branches.next().is_none());
}

#[test]
fn branch_without_upstream_is_passed_over_in_silence() {
    let listing = Ok(vec![
        BranchProbe::Local(LocalProbe {
            name: NameProbe::Text("scratch".to_owned()),
            oid: Some(oid('1')),
            upstream: None,
        }),
        tracking("master", "origin/master"),
    ]);
    let mut branches = TrackingBranches::for_repository(listing).ok().unwrap();
    assert!(errors(&branches).is_empty());
    assert_eq!(branches.next().unwrap().local_name(), "master");
    assert!(branches.next().is_none());
}

fn upstream(name: &str) -> Option<UpstreamProbe> {
    Some(UpstreamProbe { name: NameProbe::Text(name.to_owned()), oid: Some(oid('2')) })
}

#[test]
fn invalid_branches_are_left_out_with_their_errors() {
    let listing = Ok(vec![
        BranchProbe::Unreadable("bad entry".to_owned()),
        BranchProbe::Local(LocalProbe {
            name: NameProbe::Failed("no name".to_owned()),
            oid: None,
            upstream: upstream("origin/x"),
        }),
        BranchProbe::Local(LocalProbe {
            name: NameProbe::NotText,
            oid: Some(oid('1')),
            upstream: upstream("origin/y"),
        }),
        BranchProbe::Local(LocalProbe {
            name: NameProbe::Text("orphan".to_owned()),
            oid: None,
            upstream: upstream("origin/orphan"),
        }),
        tracking("master", "origin/master"),
        BranchProbe::Local(LocalProbe {
            name: NameProbe::Text("a".to_owned()),
            oid: Some(oid('1')),
            upstream: Some(UpstreamProbe { name: NameProbe::NotText, oid: Some(oid('2')) }),
        }),
        BranchProbe::Local(LocalProbe {
            name: NameProbe::Text("b".to_owned()),
            oid: Some(oid('1')),
            upstream: Some(UpstreamProbe { name: NameProbe::Failed("gone".to_owned()), oid: Some(oid('2')) }),
        }),
        BranchProbe::Local(LocalProbe {
            name: NameProbe::Text("c".to_owned()),
            oid: Some(oid('1')),
            upstream: Some(UpstreamProbe { name: NameProbe::Text("origin/c".to_owned()), oid: None }),
        }),
    ]);
    let mut branches = TrackingBranches::for_repository(listing).ok().unwrap();
    assert_eq!(
        errors(&branches),
        vec![
            "failed to get info for local branch (bad entry)",
            "failed to get name of local branch (no name)",
            "local branch name is not valid utf-8",
            "failed to resolve oid for local branch orphan",
            "upstream branch name for local branch 'a' is not valid utf-8",
            "failed to get name of upstream branch for local branch b (gone)",
            "failed to resolve oid for upstream branch origin/c (local branch is c)",
        ]
    );
    // The valid branch is still there.
    assert_eq!(branches.next().unwrap().local_name(), "master");
    assert!(branches.next().is_none());
}

#[test]
fn nothing_is_asked_of_a_branch_without_upstream() {
    let listing = Ok(vec![
        BranchProbe::Local(LocalProbe { name: NameProbe::NotText, oid: Some(oid('1')), upstream: None }),
        BranchProbe::Local(LocalProbe { name: NameProbe::Failed("no name".to_owned()), oid: None, upstream: None }),
        BranchProbe::Local(LocalProbe { name: NameProbe::Text("unborn".to_owned()), oid: None, upstream: None }),
    ]);
    let mut branches = TrackingBranches::for_repository(listing).ok().unwrap();
    assert!(errors(&branches).is_empty());
    assert!(branches.next().is_none());
}

#[test]
fn failed_listing_is_the_only_error() {
    let result = TrackingBranches::for_repository(Err("repository is bare".to_owned()));
    let errors = result.err().unwrap();
    assert_eq!(errors.len(), 1);
    assert_eq!(errors[0].message(), "failed to fetch local branch data (repository is bare)");
    let result = TrackingBranches::for_remote(Err("repository is bare".to_owned()), "origin");
    assert_eq!(result.err().unwrap()[0].message(), "failed to fetch local branch data (repository is bare)");
}

#[test]
fn for_remote_keeps_the_branches_of_the_remote() {
    let listing = Ok(vec![
        tracking("master", "origin/master"),
        tracking("dev", "fork/dev"),
        tracking("topic", "origin/topic"),
        tracking("short", "ori"),
        tracking("other", "origin2/other"),
        BranchProbe::Local(LocalProbe {
            name: NameProbe::NotText,
            oid: Some(oid('1')),
            upstream: upstream("origin/odd"),
        }),
    ]);
    let mut branches = TrackingBranches::for_remote(listing, "origin").ok().unwrap();
    assert_eq!(errors(&branches), vec!["local branch name is not valid utf-8"]);
    assert_eq!(branches.next().unwrap().local_name(), "master");
    assert_eq!(branches.next().unwrap().local_name(), "topic");
    // The upstream name only has to begin with the name of the remote.
    assert_eq!(branches.next().unwrap().local_name(), "other");
    assert!(branches.next().is_none());
}
