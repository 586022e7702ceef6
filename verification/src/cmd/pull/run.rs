//! The loop of the `pull` subcommand, one iteration at a time: results are
//! merged, termination signals acted on, fetches started, the dashboard
//! brought up to date.
use vstd::prelude::*;
use vstd::string::*;
use ansi_term::Style;
use crate::app::{default_symbol, find_given, text_views, Invocation, Repo, RepoView};
use crate::cmd::pull::screen::{kind_style, name_style, style_for_kind};
use crate::term::{paint, painted, plain};
use crate::text::same_text;
use crate::ui::listing;
use crate::cmd::pull::screen::{rows_with_remote, RowView, Screen, UpdateView, UI};
use crate::cmd::pull::{
    lemma_complete_keeps, lemma_launch_keeps, lemma_signal_keeps, survey, survey_names, survey_notes,
    Schedule, Scheduler, State, TaskView, TerminationState,
};
use crate::ui::{worst, NoteView, Summary};

verus! {

// ----- enlist ---------------------------------------------------------------
/// The tasks for the remotes `names` of repository `repo`.
pub open spec fn tasks_for(repo: nat, names: Seq<Seq<char>>) -> Seq<TaskView> {
    names.map_values(|n: Seq<char>| TaskView { repo: repo, remote: n })
}

/// The rows after the remotes `names` of repository `repo` have been added,
/// one after the other.
pub open spec fn rows_with_remotes(
    rows: Seq<RowView>,
    repo: nat,
    name: Seq<char>,
    path: Seq<char>,
    names: Seq<Seq<char>>,
) -> Seq<RowView>
    decreases names.len(),
{
    if names.len() == 0 {
        rows
    } else {
        rows_with_remote(
            rows_with_remotes(rows, repo, name, path, names.drop_last()),
            repo,
            name,
            path,
            names.last(),
        )
    }
}

/// Takes a repository into a run that has not been asked to terminate:
/// given what the repository said of its remotes, the repository gets its
/// first summary, every remote with a valid name is queued as a pending task
/// and shown on the dashboard. Returns the position of the repository.
pub fn enlist<'a>(
    scheduler: &mut Scheduler<'a>,
    ui: &mut UI,
    repo: &'a Repo,
    listing: &Result<Vec<Option<String>>, String>,
) -> (id: usize)
    requires
        old(scheduler).wf(),
        old(scheduler)@.termination == TerminationState::Running,
    ensures
        final(scheduler).wf(),
        id == old(scheduler)@.results.len(),
        final(scheduler).repos() == old(scheduler).repos().push(repo),
        final(scheduler)@ == (Schedule {
            results: old(scheduler)@.results.push(survey_notes(*listing)),
            tasks: old(scheduler)@.tasks + tasks_for(id as nat, survey_names(*listing)),
            states: old(scheduler)@.states + Seq::new(
                survey_names(*listing).len(),
                |i: int| State::Pending,
            ),
            ..old(scheduler)@
        }),
        final(ui)@ == (Screen {
            rows: rows_with_remotes(
                old(ui)@.rows,
                id as nat,
                crate::app::display_name(repo@.name, repo@.path)->0,
                repo@.path,
                survey_names(*listing),
            ),
            ..old(ui)@
        }),
{
    let (summary, names) = survey(listing);
    let id = scheduler.add_repo(repo, summary);
    let ghost all = text_views(names@);
    let ghost base = scheduler@;
    let ghost shown = crate::app::display_name(repo@.name, repo@.path)->0;
    let mut i: usize = 0;
    assert(all.take(0) =~= Seq::empty());
    assert(base.tasks + tasks_for(id as nat, all.take(0)) =~= base.tasks);
    assert(base.states + Seq::new(0nat, |k: int| State::Pending) =~= base.states);
    while i < names.len()
        invariant
            i <= names.len(),
            all == text_views(names@),
            scheduler.wf(),
            id < base.results.len(),
            base.termination == TerminationState::Running,
            scheduler.repos() == old(scheduler).repos().push(repo),
            scheduler@ == (Schedule {
                tasks: base.tasks + tasks_for(id as nat, all.take(i as int)),
                states: base.states + Seq::new(i as nat, |k: int| State::Pending),
                ..base
            }),
            ui@ == (Screen {
                rows: rows_with_remotes(old(ui)@.rows, id as nat, shown, repo@.path, all.take(i as int)),
                ..old(ui)@
            }),
            shown == crate::app::display_name(repo@.name, repo@.path)->0,
        decreases names.len() - i,
    {
        let ghost before = scheduler@;
        assert(all.take(i + 1).drop_last() =~= all.take(i as int));
        assert(all.take(i + 1).last() == names@[i as int]@);
        let name = names[i].as_str();
        let _ = scheduler.add_task(id, name);
        ui.push_remote(id, repo, name);
        assert(tasks_for(id as nat, all.take(i + 1)) =~= tasks_for(id as nat, all.take(i as int)).push(
            TaskView { repo: id as nat, remote: name@ },
        ));
        assert(scheduler@.tasks =~= base.tasks + tasks_for(id as nat, all.take(i + 1)));
        assert(scheduler@.states =~= base.states + Seq::new((i + 1) as nat, |k: int| State::Pending));
        i = i + 1;
    }
    assert(all.take(i as int) =~= all);
    id
}

// ----- tick -----------------------------------------------------------------
/// A fetch that has ended: the position of its task and its summary.
pub struct Completion {
    /// Position of the task.
    pub task: usize,
    /// What the worker found.
    pub summary: Summary,
}

/// The values of a list of completions.
pub open spec fn completion_views(done: Seq<Completion>) -> Seq<(int, Seq<NoteView>)> {
    done.map_values(|c: Completion| (c.task as int, c.summary@))
}

/// What the dashboard is told when the fetches in `done` end, one after the
/// other: the new state of each task whose end is taken note of.
pub open spec fn completion_updates(s: Schedule, done: Seq<(int, Seq<NoteView>)>) -> Seq<UpdateView>
    decreases done.len(),
{
    if done.len() == 0 {
        Seq::empty()
    } else {
        let before = s.complete_all(done.drop_last());
        let task = done.last().0;
        if before.completes(task) {
            completion_updates(s, done.drop_last()).push(
                UpdateView {
                    repo: before.tasks[task].repo,
                    remote: before.tasks[task].remote,
                    state: State::of_kind(worst(done.last().1)),
                },
            )
        } else {
            completion_updates(s, done.drop_last())
        }
    }
}

/// What the dashboard is told of the tasks from `from` on, each in `state`.
pub open spec fn task_updates(tasks: Seq<TaskView>, from: int, upto: int, state: State) -> Seq<UpdateView>
    decreases upto - from,
{
    if from >= upto {
        Seq::empty()
    } else {
        task_updates(tasks, from, upto - 1, state).push(
            UpdateView { repo: tasks[upto - 1].repo, remote: tasks[upto - 1].remote, state: state },
        )
    }
}

/// The dashboard with `updates` added to those that wait.
pub open spec fn told(screen: Screen, updates: Seq<UpdateView>) -> Screen {
    Screen { updates: screen.updates + updates, ..screen }
}

/// What one iteration of the loop asks of its caller.
pub struct Tick {
    /// What is to be written to the terminal.
    pub output: String,
    /// The tasks whose fetch is to be started, each in a worker of its own.
    pub launch: Vec<usize>,
    /// Whether every worker is to be told to kill its fetch.
    pub terminate: bool,
    /// Whether the run is over.
    pub finished: bool,
}

/// The dashboard after one iteration of the loop that takes the schedule
/// `s` through the end of the fetches in `done` and `received` termination
/// signals, on a terminal `w` columns wide and `h` rows high at the time
/// `now`: it is told of every task that ended, of every task that was
/// canceled, and is drawn anew with the banner at the first signal; it is
/// told of every task that was started; then it is brought up to date.
pub open spec fn screen_after(
    screen: Screen,
    s: Schedule,
    done: Seq<(int, Seq<NoteView>)>,
    received: nat,
    w: u16,
    h: u16,
    now: u64,
) -> Screen {
    let merged = s.complete_all(done);
    let first = told(screen, completion_updates(s, done));
    let second = if merged.softens(received) {
        told(
            first,
            task_updates(merged.tasks, merged.started as int, merged.tasks.len() as int, State::Canceled),
        ).cancel(w, h)
    } else {
        first
    };
    let signaled = merged.signal(received);
    let third = told(
        second,
        task_updates(
            signaled.tasks,
            signaled.started as int,
            signaled.launch_all().started as int,
            State::Fetching,
        ),
    );
    third.updated(w, h, now)
}

/// What one iteration of the loop writes to the terminal.
pub open spec fn text_after(
    screen: Screen,
    s: Schedule,
    done: Seq<(int, Seq<NoteView>)>,
    received: nat,
    w: u16,
    h: u16,
    now: u64,
) -> Seq<char> {
    let merged = s.complete_all(done);
    let first = told(screen, completion_updates(s, done));
    let canceled = told(
        first,
        task_updates(merged.tasks, merged.started as int, merged.tasks.len() as int, State::Canceled),
    );
    let second = if merged.softens(received) {
        canceled.cancel(w, h)
    } else {
        first
    };
    let signaled = merged.signal(received);
    let third = told(
        second,
        task_updates(
            signaled.tasks,
            signaled.started as int,
            signaled.launch_all().started as int,
            State::Fetching,
        ),
    );
    (if merged.softens(received) {
        canceled.cancel_text(merged.results, w, h)
    } else {
        Seq::empty()
    }) + third.update_text(signaled.launch_all().results, w, h, now)
}

/// The tasks of a schedule are of repositories that have a summary, as are
/// the rows and the updates of the dashboard that shows it.
pub open spec fn shows(screen: Screen, s: Schedule) -> bool {
    screen.wf() && screen.covered_by(s.results.len())
}

/// Starting tasks changes neither the tasks nor the summaries, and starts
/// the tasks of the queue in their order.
pub proof fn lemma_launch_all(s: Schedule)
    requires
        s.wf(),
    ensures
        s.launch_all().wf(),
        s.launch_all().tasks == s.tasks,
        s.launch_all().results == s.results,
        s.launch_all().termination == s.termination,
        s.launch_all().limit == s.limit,
        s.started <= s.launch_all().started <= s.tasks.len(),
        !s.launch_all().can_launch(),
        s.launch_all().active() <= s.limit,
    decreases s.tasks.len() - s.started,
{
    if s.can_launch() {
        lemma_launch_keeps(s);
        lemma_launch_all(s.launch());
    }
}

/// The end of fetches keeps the schedule well-formed and changes neither the
/// tasks nor the number of summaries.
pub proof fn lemma_complete_all(s: Schedule, done: Seq<(int, Seq<NoteView>)>)
    requires
        s.wf(),
    ensures
        s.complete_all(done).wf(),
        s.complete_all(done).tasks == s.tasks,
        s.complete_all(done).results.len() == s.results.len(),
        s.complete_all(done).termination == s.termination,
        s.complete_all(done).started == s.started,
    decreases done.len(),
{
    if done.len() > 0 {
        lemma_complete_all(s, done.drop_last());
        lemma_complete_keeps(s.complete_all(done.drop_last()), done.last().0, done.last().1);
    }
}

/// Runs one iteration of the scheduler's loop, in this order: the fetches
/// in `done` are merged into the summaries of their repositories and the
/// dashboard is told their states; `received` termination signals are acted
/// on, the first by canceling the queue and drawing the banner, the second
/// by asking for the fetches to be killed; as many tasks are started as the
/// limit allows; the dashboard is brought up to date.
pub fn tick<'a>(
    scheduler: &mut Scheduler<'a>,
    ui: &mut UI,
    done: &Vec<Completion>,
    received: usize,
    w: u16,
    h: u16,
    now: u64,
) -> (r: Tick)
    requires
        old(scheduler).wf(),
        shows(old(ui)@, old(scheduler)@),
    ensures
        final(scheduler).wf(),
        final(scheduler).repos() == old(scheduler).repos(),
        final(scheduler)@ == old(scheduler)@.tick(completion_views(done@), received as nat),
        shows(final(ui)@, final(scheduler)@),
        final(ui)@ == screen_after(
            old(ui)@,
            old(scheduler)@,
            completion_views(done@),
            received as nat,
            w,
            h,
            now,
        ),
        r.output@ == text_after(
            old(ui)@,
            old(scheduler)@,
            completion_views(done@),
            received as nat,
            w,
            h,
            now,
        ),
        r.terminate == old(scheduler)@.complete_all(completion_views(done@)).hardens(received as nat),
        r.finished == final(scheduler)@.finished(),
        r.launch@ == Seq::new(
            (final(scheduler)@.started - old(scheduler)@.complete_all(completion_views(done@)).signal(
                received as nat,
            ).started) as nat,
            |k: int|
                (old(scheduler)@.complete_all(completion_views(done@)).signal(received as nat).started
                    + k) as usize,
        ),
{
    let ghost s0 = scheduler@;
    let ghost u0 = ui@;
    let ghost all = completion_views(done@);
    proof {
        scheduler.lemma_wf();
    }
    // Merge the completed summaries and tell the dashboard.
    let mut i: usize = 0;
    assert(all.take(0) =~= Seq::empty());
    assert(u0.updates + completion_updates(s0, all.take(0)) =~= u0.updates);
    while i < done.len()
        invariant
            i <= done.len(),
            all == completion_views(done@),
            s0.wf(),
            scheduler.wf(),
            scheduler.repos() == old(scheduler).repos(),
            scheduler@ == s0.complete_all(all.take(i as int)),
            ui@ == told(u0, completion_updates(s0, all.take(i as int))),
            shows(ui@, scheduler@),
        decreases done.len() - i,
    {
        let ghost before = scheduler@;
        assert(all.take(i + 1).drop_last() =~= all.take(i as int));
        assert(all.take(i + 1).last() == (done@[i as int].task as int, done@[i as int].summary@));
        proof {
            scheduler.lemma_wf();
            lemma_complete_keeps(before, done@[i as int].task as int, done@[i as int].summary@);
        }
        let task = done[i].task;
        match scheduler.complete(task, &done[i].summary) {
            Some(state) => {
                let found = scheduler.task(task);
                let repo = scheduler.repo_of(task);
                match (repo, found) {
                    (Some(repo), Some(found)) => {
                        let ghost waiting = ui@.updates;
                        ui.update_state(repo, found.1, state);
                        assert(ui@.updates =~= u0.updates + completion_updates(s0, all.take(i + 1)));
                    },
                    _ => {},
                }
            },
            None => {},
        }
        i = i + 1;
    }
    assert(all.take(i as int) =~= all);
    let ghost merged = scheduler@;
    let ghost first = ui@;
    proof {
        scheduler.lemma_wf();
        lemma_signal_keeps(merged, received as nat);
    }
    // Act on the termination signals.
    let was_running = match scheduler.termination() {
        TerminationState::Running => true,
        _ => false,
    };
    let signaled = scheduler.signal(received);
    let mut output = String::new();
    let mut j: usize = 0;
    assert(ui@.updates =~= first.updates + task_updates(
        merged.tasks,
        merged.started as int,
        merged.started as int,
        State::Canceled,
    ));
    while j < signaled.canceled.len()
        invariant
            j <= signaled.canceled.len(),
            scheduler.wf(),
            merged.wf(),
            scheduler@ == merged.signal(received as nat),
            signaled.canceled@.len() > 0 ==> merged.softens(received as nat),
            merged.softens(received as nat) ==> signaled.canceled@ == Seq::new(
                (merged.tasks.len() - merged.started) as nat,
                |k: int| (merged.started + k) as usize,
            ),
            ui@ == told(
                first,
                task_updates(merged.tasks, merged.started as int, merged.started + j, State::Canceled),
            ),
            shows(ui@, scheduler@),
        decreases signaled.canceled.len() - j,
    {
        let task = signaled.canceled[j];
        assert(task == merged.started + j);
        let found = scheduler.task(task);
        let repo = scheduler.repo_of(task);
        match (repo, found) {
            (Some(repo), Some(found)) => {
                ui.update_state(repo, found.1, State::Canceled);
                assert(ui@.updates =~= first.updates + task_updates(
                    merged.tasks,
                    merged.started as int,
                    merged.started + j + 1,
                    State::Canceled,
                ));
            },
            _ => {},
        }
        j = j + 1;
    }
    if was_running && received > 0 {
        let text = ui.cancel(w, h, scheduler.results());
        output.append(text.as_str());
    }
    let ghost second = ui@;
    let ghost soft = scheduler@;
    // Start as many fetches as the limit allows.
    let mut launch: Vec<usize> = Vec::new();
    proof {
        scheduler.lemma_wf();
        lemma_launch_all(soft);
    }
    assert(ui@.updates =~= second.updates + task_updates(
        soft.tasks,
        soft.started as int,
        soft.started as int,
        State::Fetching,
    ));
    loop
        invariant
            scheduler.wf(),
            soft.wf(),
            scheduler.repos() == old(scheduler).repos(),
            scheduler@.launch_all() == soft.launch_all(),
            scheduler@.tasks == soft.tasks,
            scheduler@.results == soft.results,
            soft.started <= scheduler@.started <= soft.tasks.len(),
            launch@ == Seq::new(
                (scheduler@.started - soft.started) as nat,
                |k: int| (soft.started + k) as usize,
            ),
            ui@ == told(
                second,
                task_updates(soft.tasks, soft.started as int, scheduler@.started as int, State::Fetching),
            ),
            shows(ui@, scheduler@),
        ensures
            !scheduler@.can_launch(),
        decreases scheduler@.tasks.len() - scheduler@.started,
    {
        proof {
            scheduler.lemma_wf();
            lemma_launch_keeps(scheduler@);
        }
        let ghost before = scheduler@;
        match scheduler.launch() {
            Some(task) => {
                let found = scheduler.task(task);
                let repo = scheduler.repo_of(task);
                match (repo, found) {
                    (Some(repo), Some(found)) => {
                        ui.update_state(repo, found.1, State::Fetching);
                        assert(ui@.updates =~= second.updates + task_updates(
                            soft.tasks,
                            soft.started as int,
                            before.started as int + 1,
                            State::Fetching,
                        ));
                    },
                    _ => {},
                }
                launch.push(task);
                assert(launch@ =~= Seq::new(
                    (scheduler@.started - soft.started) as nat,
                    |k: int| (soft.started + k) as usize,
                ));
            },
            None => {
                break ;
            },
        }
    }
    assert(scheduler@ == soft.launch_all());
    // Give the dashboard a chance to update itself.
    let text = ui.update(w, h, now, scheduler.results());
    output.append(text.as_str());
    let finished = scheduler.finished();
    Tick { output: output, launch: launch, terminate: signaled.terminate, finished: finished }
}


// ----- select ---------------------------------------------------------------
/// Whether a repository is asked for: no tag was given, or it carries one of
/// the tags that were.
pub open spec fn wanted(repo: RepoView, tags: Option<Seq<Seq<char>>>) -> bool {
    match tags {
        None => true,
        Some(tags) => carries_one(repo, tags),
    }
}

/// Whether a repository carries one of `tags`.
pub open spec fn carries_one(repo: RepoView, tags: Seq<Seq<char>>) -> bool {
    exists|k: int| 0 <= k < tags.len() && repo.tags.contains(#[trigger] tags[k])
}

/// The tags given for the argument `arg`, if any were.
pub open spec fn tags_given(invocation: &Invocation, arg: Seq<char>) -> Option<Seq<Seq<char>>> {
    if find_given(invocation.given(), arg) < invocation.given().len() {
        Some(invocation.given()[find_given(invocation.given(), arg)].values)
    } else {
        None
    }
}

/// Returns whether `repo` carries one of `tags`.
fn carries(repo: &Repo, tags: &Vec<String>) -> (r: bool)
    ensures
        r == wanted(repo@, Some(text_views(tags@))),
{
    let mut k: usize = 0;
    while k < tags.len()
        invariant
            k <= tags.len(),
            forall|j: int| 0 <= j < k ==> !repo@.tags.contains(#[trigger] text_views(tags@)[j]),
        decreases tags.len() - k,
    {
        if repo.has_tag(tags[k].as_str()) {
            let ghost t = text_views(tags@);
            assert(t[k as int] == tags@[k as int]@);
            assert(0 <= k < t.len() && repo@.tags.contains(t[k as int]));
            assert(carries_one(repo@, t));
            return true;
        }
        assert(text_views(tags@)[k as int] == tags@[k as int]@);
        k = k + 1;
    }
    false
}

/// Returns whether one of `repos` has the path `path`.
fn holds_path(repos: &Vec<&Repo>, path: &str) -> (r: bool)
    ensures
        r == exists|i: int| 0 <= i < repos@.len() && (#[trigger] repos@[i])@.path == path@,
{
    let mut i: usize = 0;
    while i < repos.len()
        invariant
            i <= repos.len(),
            forall|k: int| 0 <= k < i ==> (#[trigger] repos@[k])@.path != path@,
        decreases repos.len() - i,
    {
        if same_text(repos[i].path(), path) {
            return true;
        }
        i = i + 1;
    }
    false
}

/// Makes the list of the repositories to fetch, taking the tags given for
/// the argument `arg` into account: every configured repository that is
/// asked for, each path once.
pub fn select<'a>(invocation: &'a Invocation, arg: &str) -> (r: Vec<&'a Repo>)
    ensures
        forall|i: int, j: int|
            0 <= i < j < r@.len() ==> (#[trigger] r@[i])@.path != (#[trigger] r@[j])@.path,
        forall|i: int|
            0 <= i < r@.len() ==> invocation.repos().contains((#[trigger] r@[i])@) && wanted(
                r@[i]@,
                tags_given(invocation, arg@),
            ),
        forall|k: int|
            0 <= k < invocation.repos().len() && wanted(
                #[trigger] invocation.repos()[k],
                tags_given(invocation, arg@),
            ) ==> exists|i: int| 0 <= i < r@.len() && (#[trigger] r@[i])@.path == invocation.repos()[k].path,
{
    let config = invocation.config();
    let tags = invocation.matches().values_of(arg);
    let ghost given = tags_given(invocation, arg@);
    let mut repos: Vec<&'a Repo> = Vec::new();
    let mut k: usize = 0;
    while k < config.len()
        invariant
            k <= config@.len(),
            config@ == invocation.repos(),
            given == tags_given(invocation, arg@),
            given == (match tags {
                Some(values) => Some(text_views(values@)),
                None => None,
            }),
            forall|i: int, j: int|
                0 <= i < j < repos@.len() ==> (#[trigger] repos@[i])@.path != (#[trigger] repos@[j])@.path,
            forall|i: int|
                0 <= i < repos@.len() ==> config@.contains((#[trigger] repos@[i])@) && wanted(
                    repos@[i]@,
                    given,
                ),
            forall|n: int|
                0 <= n < k && wanted(#[trigger] config@[n], given) ==> exists|i: int|
                    0 <= i < repos@.len() && (#[trigger] repos@[i])@.path == config@[n].path,
        decreases config@.len() - k,
    {
        let ghost before = repos@;
        match config.get(k) {
            Some(repo) => {
                let asked = match tags {
                    Some(values) => carries(repo, values),
                    None => true,
                };
                if asked && !holds_path(&repos, repo.path()) {
                    repos.push(repo);
                    assert(repos@[before.len() as int]@.path == config@[k as int].path);
                    assert forall|n: int|
                        0 <= n < k + 1 && wanted(#[trigger] config@[n], given) implies exists|i: int|
                        0 <= i < repos@.len() && (#[trigger] repos@[i])@.path == config@[n].path by {
                        if n < k {
                            let i = choose|i: int|
                                0 <= i < before.len() && (#[trigger] before[i])@.path == config@[n].path;
                            assert(repos@[i] == before[i]);
                        }
                    }
                }
            },
            None => {},
        }
        k = k + 1;
    }
    repos
}

// ----- report ---------------------------------------------------------------
/// The bold, underlined style of the heading of a tag.
pub open spec fn header_style() -> Style {
    Style { is_bold: true, is_underline: true, ..plain() }
}

/// The heading of a group of the report: an empty line and, where the group
/// is that of a tag, the line that names the tag.
pub open spec fn heading(tag: Option<Seq<char>>) -> Seq<char> {
    match tag {
        Some(tag) => "\n"@ + painted(header_style(), "TAG:"@) + painted(header_style(), tag) + "\n"@,
        None => "\n"@,
    }
}

/// The line of a note in the report: an arrow and the message, in the style
/// of the note's kind.
pub open spec fn note_line(note: NoteView) -> Seq<char> {
    painted(kind_style(note.kind), "  \u{2192} "@ + note.message) + "\n"@
}

/// The lines of `notes`, one after the other.
pub open spec fn note_lines(notes: Seq<NoteView>) -> Seq<char>
    decreases notes.len(),
{
    if notes.len() == 0 {
        Seq::empty()
    } else {
        note_line(notes[0]) + note_lines(notes.drop_first())
    }
}

/// What the report says of a repository shown as `name` with `symbol`: the
/// symbol and the name, bold in the style of the worst kind of its notes,
/// then the notes, sorted by group and message.
pub open spec fn repo_block(symbol: Seq<char>, name: Seq<char>, notes: Seq<NoteView>) -> Seq<char> {
    painted(name_style(worst(notes)), symbol) + " "@ + painted(name_style(worst(notes)), name) + "\n"@
        + note_lines(listing(notes))
}

/// Returns the heading of a group of the report.
pub fn report_heading(tag: Option<&str>) -> (r: String)
    ensures
        r@ == heading(crate::app::option_str_view(tag)),
{
    match tag {
        Some(tag) => {
            let header = Style::new().bold().underline();
            let label = paint(header, "TAG:");
            let name = paint(header, tag);
            let mut r = String::from_str("\n");
            r.append(label.as_str());
            r.append(name.as_str());
            r.append("\n");
            r
        },
        None => String::from_str("\n"),
    }
}

/// Returns what the report says of `repo`, shown as `name`, whose summary is
/// `summary`.
pub fn report_repo(repo: &Repo, name: &str, summary: &Summary) -> (r: String)
    ensures
        r@ == repo_block(
            match repo@.symbol {
                Some(symbol) => symbol,
                None => default_symbol(),
            },
            name@,
            summary@,
        ),
{
    let kind = summary.kind();
    let style = style_for_kind(&kind).bold();
    let symbol = paint(style, repo.symbol_or_default());
    let title = paint(style, name);
    let mut r = String::new();
    r.append(symbol.as_str());
    r.append(" ");
    r.append(title.as_str());
    r.append("\n");
    let ghost head = r@;
    let mut notes = summary.iter();
    let ghost all = notes.remaining();
    assert(r@ =~= head + Seq::<char>::empty());
    loop
        invariant
            all == listing(summary@),
            r@ + note_lines(notes.remaining()) == head + note_lines(all),
        ensures
            r@ == head + note_lines(all),
        decreases notes.remaining().len(),
    {
        let ghost rest = notes.remaining();
        let ghost before = r@;
        match notes.next() {
            Some(note) => {
                let mut text = String::from_str("  \u{2192} ");
                text.append(note.message());
                let line = paint(style_for_kind(note.kind()), text.as_str());
                r.append(line.as_str());
                r.append("\n");
                assert(r@ =~= before + note_line(rest[0]));
                assert(before + note_line(rest[0]) + note_lines(rest.drop_first()) =~= before + (
                note_line(rest[0]) + note_lines(rest.drop_first())));
            },
            None => {
                assert(note_lines(rest) =~= Seq::<char>::empty());
                assert(r@ =~= head + note_lines(all));
                break ;
            },
        }
    }
    r
}

} // verus!
