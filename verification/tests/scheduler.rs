use git2::Oid;
use mgit::app::{Action, Config, Control, Invocation, Located, Matches, Repo, Section};
use mgit::cmd::pull::reconcile::FastForward;
use mgit::cmd::pull::run::{enlist, report_heading, report_repo, select, tick, Completion};
use mgit::cmd::pull::screen::UI;
use mgit::cmd::pull::{
    begin_summary, check_concurrent, failure_text, note_branch_errors, parse_concurrent, poll, survey,
    Fetched, Poll, Results, Scheduler, State, TerminationState,
};
use mgit::ui::{Kind, Note, Summary, TrackingBranch};

fn repo(name: &str) -> Repo {
    let path = format!("~/src/{}", name);
    let full = format!("/home/me/src/{}", name);
    Repo::new("/home/me/.mgit", &path, &full, Some(name), None, &[])
}

fn remotes(names: &[&str]) -> Result<Vec<Option<String>>, String> {
    Ok(names.iter().map(|n| Some((*n).to_owned())).collect())
}

fn note(kind: Kind, message: &str) -> Summary {
    let mut summary = Summary::new();
    summary.push_note(Note::new(101, kind, message));
    summary
}

fn fetching(scheduler: &Scheduler) -> usize {
    (0..scheduler.len()).filter(|t| scheduler.state(*t) == Some(State::Fetching)).count()
}

#[test]
fn concurrency_below_one_is_refused() {
    let error = Scheduler::new(0).err().unwrap();
    assert_eq!(error.message(), "CONCURRENT must be one or greater (got '0')");
    assert!(Scheduler::new(1).is_ok());
    assert!(Scheduler::new(255).is_ok());
    let wide = Scheduler::new(300).ok().unwrap();
    assert_eq!(wide.concurrent(), 300);
    assert!(Scheduler::new(usize::MAX).is_ok());
}

#[test]
fn concurrency_is_read_from_the_argument() {
    assert_eq!(parse_concurrent("8").ok(), Some(8));
    assert_eq!(parse_concurrent("1").ok(), Some(1));
    assert_eq!(parse_concurrent("255").ok(), Some(255));
    assert_eq!(parse_concurrent("256").ok(), Some(256));
    assert_eq!(parse_concurrent("300").ok(), Some(300));
    assert_eq!(parse_concurrent("+12").ok(), Some(12));
    assert_eq!(parse_concurrent("007").ok(), Some(7));
    assert_eq!(parse_concurrent(&usize::MAX.to_string()).ok(), Some(usize::MAX));
    assert_eq!(
        parse_concurrent("+0").err().unwrap().message(),
        "CONCURRENT must be one or greater (got '0')"
    );
    for refused in ["", "+", "-", "-1", "++1", " 1", "1 ", "1_000", "0x10", "1.0", "\u{661}"] {
        assert!(parse_concurrent(refused)
            .err()
            .unwrap()
            .message()
            .starts_with(&format!("failed to interpret value '{}' for CONCURRENT (", refused)));
    }
    assert_eq!(
        parse_concurrent("0").err().unwrap().message(),
        "CONCURRENT must be one or greater (got '0')"
    );
    assert_eq!(
        parse_concurrent("many").err().unwrap().message(),
        "failed to interpret value 'many' for CONCURRENT (invalid digit found in string)"
    );
    assert_eq!(
        parse_concurrent("99999999999999999999999999").err().unwrap().message(),
        "failed to interpret value '99999999999999999999999999' for CONCURRENT (number too large to fit in target type)"
    );
    assert_eq!(
        parse_concurrent("").err().unwrap().message(),
        "failed to interpret value '' for CONCURRENT (cannot parse integer from empty string)"
    );
    assert_eq!(
        check_concurrent("x", Err("why".to_owned())).err().unwrap().message(),
        "failed to interpret value 'x' for CONCURRENT (why)"
    );
    assert_eq!(check_concurrent("3", Ok(3)).ok(), Some(3));
}

#[test]
fn remotes_are_surveyed() {
    let (summary, names) = survey(&Ok(vec![Some("origin".to_owned()), None, Some("fork".to_owned()), None]));
    assert_eq!(names, vec!["origin", "fork"]);
    assert_eq!(summary.notes().len(), 2);
    assert_eq!(summary.notes()[0].message(), "skipped remote with invalid utf-8 name");
    assert_eq!(summary.notes()[0].group(), 0);
    assert!(*summary.notes()[0].kind() == Kind::Failure);

    let (summary, names) = survey(&Err("config is broken".to_owned()));
    assert!(names.is_empty());
    assert_eq!(summary.notes().len(), 1);
    assert_eq!(summary.notes()[0].message(), "failed to get remotes (config is broken)");
    assert!(summary.kind() == Kind::Failure);
}

#[test]
fn fetch_outcome_is_noted() {
    let (summary, proceed) = begin_summary("origin", &Fetched::Succeeded);
    assert!(proceed);
    assert_eq!(summary.notes().len(), 1);
    assert_eq!(summary.notes()[0].message(), "fetched from origin");
    assert_eq!(summary.notes()[0].group(), 100);
    assert!(summary.kind() == Kind::Neutral);

    let failed = Fetched::Failed { stdout: "".to_owned(), stderr: "fatal: no route\n".to_owned() };
    let (summary, proceed) = begin_summary("origin", &failed);
    assert!(!proceed);
    assert_eq!(summary.notes()[0].message(), "failed to fetch from origin: fatal: no route\n");
    assert_eq!(summary.notes()[0].group(), 0);
    assert!(summary.kind() == Kind::Failure);

    let (summary, proceed) = begin_summary("fork", &Fetched::Lost("no child".to_owned()));
    assert!(!proceed);
    assert_eq!(summary.notes()[0].message(), "failed to fetch from fork: no child");

    assert_eq!(failure_text("out", "err"), "STDOUT:\nout\nSTDERR:\nerr");
    assert_eq!(failure_text("out", ""), "out");
    assert_eq!(failure_text("", "err"), "err");
    assert_eq!(failure_text("", ""), "");
}

#[test]
fn worker_polls_its_process() {
    assert!(poll(true, false) == Poll::Collect);
    assert!(poll(true, true) == Poll::Collect);
    assert!(poll(false, true) == Poll::Kill);
    assert!(poll(false, false) == Poll::Wait);
}

#[test]
fn branch_errors_become_failure_notes() {
    let mut summary = Summary::new();
    let errors = vec![mgit::app::Error::new("first"), mgit::app::Error::new("second")];
    note_branch_errors(&mut summary, &errors);
    assert_eq!(summary.notes().len(), 2);
    assert_eq!(summary.notes()[1].message(), "second");
    assert_eq!(summary.notes()[1].group(), 1);
    assert!(*summary.notes()[1].kind() == Kind::Failure);
}

#[test]
fn results_are_kept_by_position() {
    let mut results = Results::new();
    assert_eq!(results.len(), 0);
    assert!(results.get(0).is_none());
    assert_eq!(results.insert(Summary::new()), 0);
    assert_eq!(results.insert(note(Kind::Warning, "w")), 1);
    results.merge(0, &note(Kind::Success, "s"));
    assert!(results.get(0).unwrap().kind() == Kind::Success);
    assert!(results.get(1).unwrap().kind() == Kind::Warning);
    assert!(results.get(2).is_none());
}

#[test]
fn never_more_fetches_than_the_limit() {
    let repos: Vec<Repo> = (0..5).map(|i| repo(&format!("r{}", i))).collect();
    let mut scheduler = Scheduler::new(3).ok().unwrap();
    for r in &repos {
        let id = scheduler.add_repo(r, Summary::new());
        assert!(scheduler.add_task(id, "origin").is_some());
        assert!(scheduler.add_task(id, "fork").is_some());
    }
    assert_eq!(scheduler.len(), 10);
    assert_eq!(scheduler.concurrent(), 3);
    let mut started = Vec::new();
    while let Some(task) = scheduler.launch() {
        started.push(task);
        assert!(scheduler.active() <= 3);
    }
    assert_eq!(started, vec![0, 1, 2]);
    assert_eq!(scheduler.active(), 3);
    assert_eq!(fetching(&scheduler), 3);
    assert!(scheduler.launch().is_none());
    // A place is freed by each fetch that ends, and taken again.
    let mut next = 3;
    while !scheduler.finished() {
        let done = started.remove(0);
        assert!(scheduler.complete(done, &Summary::new()) == Some(State::NoChange));
        assert_eq!(scheduler.active(), started.len());
        while let Some(task) = scheduler.launch() {
            assert_eq!(task, next);
            next += 1;
            started.push(task);
        }
        assert!(scheduler.active() <= 3);
        assert_eq!(fetching(&scheduler), scheduler.active());
    }
    assert_eq!(next, 10);
    assert!(scheduler.reports());
}

#[test]
fn summary_is_merged_once_for_each_task() {
    let r = repo("one");
    let mut scheduler = Scheduler::new(2).ok().unwrap();
    let id = scheduler.add_repo(&r, note(Kind::Neutral, "first"));
    scheduler.add_task(id, "origin");
    scheduler.add_task(id, "fork");
    // A task that has not been started cannot end.
    assert!(scheduler.complete(0, &note(Kind::Failure, "early")).is_none());
    assert_eq!(scheduler.results().get(id).unwrap().notes().len(), 1);
    assert_eq!(scheduler.launch(), Some(0));
    assert_eq!(scheduler.launch(), Some(1));
    assert!(scheduler.complete(0, &note(Kind::Warning, "from origin")) == Some(State::Warning));
    assert_eq!(scheduler.results().get(id).unwrap().notes().len(), 2);
    // The same fetch cannot end twice.
    assert!(scheduler.complete(0, &note(Kind::Warning, "from origin")).is_none());
    assert_eq!(scheduler.results().get(id).unwrap().notes().len(), 2);
    assert!(scheduler.state(0) == Some(State::Warning));
    assert!(scheduler.complete(1, &note(Kind::Success, "from fork")) == Some(State::Success));
    let summary = scheduler.results().get(id).unwrap();
    assert_eq!(summary.notes().len(), 3);
    assert_eq!(summary.notes()[1].message(), "from origin");
    assert_eq!(summary.notes()[2].message(), "from fork");
    assert!(summary.kind() == Kind::Warning);
    assert!(scheduler.complete(7, &Summary::new()).is_none());
    assert!(scheduler.finished());
}

#[test]
fn state_follows_the_kind_of_the_summary() {
    assert!(State::from_kind(Kind::Neutral) == State::NoChange);
    assert!(State::from_kind(Kind::Success) == State::Success);
    assert!(State::from_kind(Kind::Warning) == State::Warning);
    assert!(State::from_kind(Kind::Failure) == State::Failure);
}

#[test]
fn first_signal_cancels_the_queue() {
    let r = repo("one");
    let mut scheduler = Scheduler::new(1).ok().unwrap();
    let id = scheduler.add_repo(&r, Summary::new());
    for name in ["a", "b", "c"] {
        scheduler.add_task(id, name);
    }
    assert_eq!(scheduler.launch(), Some(0));
    let signaled = scheduler.signal(0);
    assert!(signaled.canceled.is_empty());
    assert!(!signaled.terminate);
    assert!(scheduler.termination() == TerminationState::Running);

    let signaled = scheduler.signal(1);
    assert_eq!(signaled.canceled, vec![1, 2]);
    assert!(!signaled.terminate);
    assert!(scheduler.termination() == TerminationState::Soft);
    assert!(scheduler.state(0) == Some(State::Fetching));
    assert!(scheduler.state(1) == Some(State::Canceled));
    assert!(scheduler.state(2) == Some(State::Canceled));
    // Nothing is started any more, though there is room once the fetch ends.
    assert!(scheduler.launch().is_none());
    assert!(!scheduler.finished());
    assert!(scheduler.complete(0, &Summary::new()) == Some(State::NoChange));
    assert!(scheduler.launch().is_none());
    assert!(scheduler.finished());
    assert!(scheduler.reports());
    // The same signal is not acted on again.
    let again = scheduler.signal(1);
    assert!(again.canceled.is_empty());
    assert!(!again.terminate);
    // A task that is added now is canceled at once.
    assert_eq!(scheduler.add_task(id, "late"), Some(3));
    assert!(scheduler.state(3) == Some(State::Canceled));
    assert!(scheduler.launch().is_none());
}

#[test]
fn second_signal_ends_the_run_without_report() {
    let r = repo("one");
    let mut scheduler = Scheduler::new(2).ok().unwrap();
    let id = scheduler.add_repo(&r, Summary::new());
    for name in ["a", "b", "c"] {
        scheduler.add_task(id, name);
    }
    scheduler.launch();
    scheduler.launch();
    scheduler.signal(1);
    let signaled = scheduler.signal(2);
    assert!(signaled.canceled.is_empty());
    assert!(signaled.terminate);
    assert!(scheduler.termination() == TerminationState::Hard);
    assert!(scheduler.finished());
    assert!(!scheduler.reports());
    // The fetches in progress are not given another state.
    assert!(scheduler.state(0) == Some(State::Fetching));
    assert!(scheduler.state(1) == Some(State::Fetching));
    assert!(scheduler.state(2) == Some(State::Canceled));
    // They report no more: what comes after the kill is not merged.
    assert!(scheduler.complete(0, &note(Kind::Failure, "late")).is_none());
    assert!(scheduler.state(0) == Some(State::Fetching));
    assert_eq!(scheduler.results().get(id).unwrap().notes().len(), 0);
    assert_eq!(scheduler.active(), 2);
    let again = scheduler.signal(3);
    assert!(!again.terminate);
}

#[test]
fn two_signals_at_once_cancel_and_terminate() {
    let r = repo("one");
    let mut scheduler = Scheduler::new(1).ok().unwrap();
    let id = scheduler.add_repo(&r, Summary::new());
    scheduler.add_task(id, "a");
    scheduler.add_task(id, "b");
    scheduler.launch();
    let signaled = scheduler.signal(2);
    assert_eq!(signaled.canceled, vec![1]);
    assert!(signaled.terminate);
    assert!(scheduler.termination() == TerminationState::Hard);
}

#[test]
fn task_knows_its_repository_and_remote() {
    let a = repo("a");
    let b = repo("b");
    let mut scheduler = Scheduler::new(1).ok().unwrap();
    let mut ui = UI::new();
    assert_eq!(enlist(&mut scheduler, &mut ui, &a, &remotes(&["origin"])), 0);
    assert_eq!(enlist(&mut scheduler, &mut ui, &b, &Ok(vec![None, Some("fork".to_owned())])), 1);
    assert_eq!(scheduler.len(), 2);
    let (repo, remote) = scheduler.task(1).unwrap();
    assert_eq!(repo.path(), "~/src/b");
    assert_eq!(remote, "fork");
    assert_eq!(scheduler.repo_of(1), Some(1));
    assert!(scheduler.task(2).is_none());
    assert!(scheduler.state(1) == Some(State::Pending));
    assert!(scheduler.state(2).is_none());
    assert_eq!(scheduler.results().get(1).unwrap().notes().len(), 1);
    assert!(scheduler.add_task(5, "nowhere").is_none());
}

fn up_to_date(remote: &str) -> Summary {
    let (mut summary, proceed) = begin_summary(remote, &Fetched::Succeeded);
    assert!(proceed);
    let oid = Oid::from_str("1111111111111111111111111111111111111111").unwrap();
    let branch = TrackingBranch::new("master", oid, &format!("{}/master", remote), oid);
    let ff = FastForward::start(branch, true, Ok((0, 0)));
    summary.push_summary(ff.notes());
    summary
}

#[test]
fn three_repositories_two_at_a_time() {
    let repos = vec![repo("a"), repo("b"), repo("c")];
    let mut scheduler = Scheduler::new(2).ok().unwrap();
    let mut ui = UI::new();
    for r in &repos {
        enlist(&mut scheduler, &mut ui, r, &remotes(&["origin"]));
    }
    let mut running: Vec<usize> = Vec::new();
    let mut most = 0;
    let mut now = 0;
    loop {
        // Every fetch that is running ends before the next tick.
        let done: Vec<Completion> =
            running.drain(..).map(|task| Completion { task, summary: up_to_date("origin") }).collect();
        let step = tick(&mut scheduler, &mut ui, &done, 0, 80, 24, now);
        assert!(!step.terminate);
        running.extend(step.launch.iter().copied());
        assert!(scheduler.active() <= 2);
        assert_eq!(scheduler.active(), running.len());
        most = most.max(scheduler.active());
        now += 10;
        if step.finished {
            break;
        }
    }
    assert_eq!(most, 2);
    assert!(scheduler.reports());
    for (id, r) in repos.iter().enumerate() {
        let summary = scheduler.results().get(id).unwrap();
        let up: Vec<&Note> =
            summary.notes().iter().filter(|n| n.message().contains("is up to date with ")).collect();
        assert_eq!(up.len(), 1);
        assert_eq!(up[0].message(), "master is up to date with origin/master");
        assert!(summary.kind() == Kind::Neutral);
        let block = report_repo(r, r.name_or_default(), summary);
        assert_eq!(
            block,
            format!(
                "\u{1b}[1m\u{2022}\u{1b}[0m \u{1b}[1m{}\u{1b}[0m\n  \u{2192} fetched from origin\n  \u{2192} master is up to date with origin/master\n",
                r.name_or_default()
            )
        );
    }
}

#[test]
fn one_failed_fetch_among_many() {
    let repos: Vec<Repo> = (0..4).map(|i| repo(&format!("r{}", i))).collect();
    let mut scheduler = Scheduler::new(8).ok().unwrap();
    let mut ui = UI::new();
    for r in &repos {
        enlist(&mut scheduler, &mut ui, r, &remotes(&["origin"]));
    }
    let step = tick(&mut scheduler, &mut ui, &Vec::new(), 0, 80, 24, 0);
    assert_eq!(step.launch, vec![0, 1, 2, 3]);
    assert!(!step.finished);
    let failed = Fetched::Failed { stdout: "".to_owned(), stderr: "fatal: unable to access".to_owned() };
    let done: Vec<Completion> = (0..4)
        .map(|task| Completion {
            task,
            summary: if task == 2 { begin_summary("origin", &failed).0 } else { up_to_date("origin") },
        })
        .collect();
    let step = tick(&mut scheduler, &mut ui, &done, 0, 80, 24, 10);
    assert!(step.finished);
    assert!(step.launch.is_empty());
    let broken = scheduler.results().get(2).unwrap();
    let failures: Vec<&Note> = broken.notes().iter().filter(|n| *n.kind() == Kind::Failure).collect();
    assert_eq!(failures.len(), 1);
    assert_eq!(failures[0].message(), "failed to fetch from origin: fatal: unable to access");
    assert_eq!(broken.notes().len(), 1);
    assert!(scheduler.state(2) == Some(State::Failure));
    for id in [0, 1, 3] {
        assert!(scheduler.results().get(id).unwrap().kind() == Kind::Neutral);
        assert!(scheduler.state(id) == Some(State::NoChange));
    }
    assert_eq!(
        report_repo(&repos[2], "r2", broken),
        "\u{1b}[1;31m\u{2022}\u{1b}[0m \u{1b}[1;31mr2\u{1b}[0m\n\u{1b}[31m  \u{2192} failed to fetch from origin: fatal: unable to access\u{1b}[0m\n"
    );
}

#[test]
fn tick_acts_on_signals() {
    let repos = vec![repo("a"), repo("b"), repo("c")];
    let mut scheduler = Scheduler::new(1).ok().unwrap();
    let mut ui = UI::new();
    for r in &repos {
        enlist(&mut scheduler, &mut ui, r, &remotes(&["origin"]));
    }
    let step = tick(&mut scheduler, &mut ui, &Vec::new(), 0, 80, 24, 0);
    assert_eq!(step.launch, vec![0]);
    // The first signal: the queue is canceled, the banner drawn, nothing started.
    let step = tick(&mut scheduler, &mut ui, &Vec::new(), 1, 80, 24, 10);
    assert!(step.launch.is_empty());
    assert!(!step.terminate);
    assert!(!step.finished);
    assert!(step.output.contains("pending fetches canceled"));
    assert!(scheduler.state(1) == Some(State::Canceled));
    assert!(scheduler.state(2) == Some(State::Canceled));
    assert!(scheduler.state(0) == Some(State::Fetching));
    // The fetch in progress may still end.
    let done = vec![Completion { task: 0, summary: up_to_date("origin") }];
    let step = tick(&mut scheduler, &mut ui, &done, 1, 80, 24, 20);
    assert!(step.finished);
    assert!(step.launch.is_empty());
    assert!(scheduler.reports());
}

#[test]
fn tick_terminates_on_the_second_signal() {
    let repos = vec![repo("a"), repo("b")];
    let mut scheduler = Scheduler::new(1).ok().unwrap();
    let mut ui = UI::new();
    for r in &repos {
        enlist(&mut scheduler, &mut ui, r, &remotes(&["origin"]));
    }
    tick(&mut scheduler, &mut ui, &Vec::new(), 0, 80, 24, 0);
    tick(&mut scheduler, &mut ui, &Vec::new(), 1, 80, 24, 10);
    let step = tick(&mut scheduler, &mut ui, &Vec::new(), 2, 80, 24, 20);
    assert!(step.terminate);
    assert!(step.finished);
    assert!(step.launch.is_empty());
    assert!(!scheduler.reports());
    assert!(scheduler.state(0) == Some(State::Fetching));
}

#[test]
fn report_has_a_heading_for_each_tag() {
    assert_eq!(report_heading(None), "\n");
    assert_eq!(
        report_heading(Some("work")),
        "\n\u{1b}[1;4mTAG:\u{1b}[0m\u{1b}[1;4mwork\u{1b}[0m\n"
    );
}

#[test]
fn report_lists_notes_in_their_styles() {
    let r = Repo::new("/c", "/r/x", "/r/x", None, Some("#"), &[]);
    let mut summary = Summary::new();
    summary.push_note(Note::new(101, Kind::Warning, "b is ahead of o/b by 1 commit"));
    summary.push_note(Note::new(101, Kind::Success, "fast-forwarded a to o/a"));
    summary.push_note(Note::new(100, Kind::Neutral, "fetched from o"));
    assert_eq!(
        report_repo(&r, "x", &summary),
        "\u{1b}[1;33m#\u{1b}[0m \u{1b}[1;33mx\u{1b}[0m\n  \u{2192} fetched from o\n\u{1b}[33m  \u{2192} b is ahead of o/b by 1 commit\u{1b}[0m\n\u{1b}[32m  \u{2192} fast-forwarded a to o/a\u{1b}[0m\n"
    );
}

#[test]
fn repositories_are_selected_by_tag() {
    let mut config = Config::new();
    for (path, tags) in [("/r/a", Some("work play")), ("/r/b", Some("play")), ("/r/c", None)] {
        let section = Section {
            path: path.to_owned(),
            name: None,
            symbol: None,
            tags: tags.map(|t| t.to_owned()),
        };
        let located = Located::At { full_path: path.to_owned(), opened: Ok(()) };
        assert!(config.register("/conf", &section, &located).is_ok());
    }
    let paths = |invocation: &Invocation| -> Vec<String> {
        select(invocation, "TAG").iter().map(|r| r.path().to_owned()).collect()
    };
    let all = Invocation::new(Control::new(Action::Print), config, Matches::new());
    assert_eq!(paths(&all), vec!["/r/a", "/r/b", "/r/c"]);

    let mut config = Config::new();
    for (path, tags) in [("/r/a", Some("work play")), ("/r/b", Some("play")), ("/r/c", None)] {
        let section = Section {
            path: path.to_owned(),
            name: None,
            symbol: None,
            tags: tags.map(|t| t.to_owned()),
        };
        let located = Located::At { full_path: path.to_owned(), opened: Ok(()) };
        assert!(config.register("/conf", &section, &located).is_ok());
    }
    let mut matches = Matches::new();
    matches.push("TAG", vec!["play".to_owned(), "work".to_owned()]);
    let tagged = Invocation::new(Control::new(Action::Print), config, matches);
    // A repository that carries both tags is fetched once.
    assert_eq!(paths(&tagged), vec!["/r/a", "/r/b"]);
}
