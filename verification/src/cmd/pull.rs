//! `pull` subcommand: the schedule of fetches, their states and the
//! cancellation protocol.
pub mod reconcile;
pub mod run;
pub mod screen;

use vstd::prelude::*;
use vstd::string::*;
use crate::app::{Error, Repo};
use crate::text::decimal_string;
use crate::ui::{worst, Kind, Note, NoteView, Summary};

verus! {

/// Name of the command (`pull`).
pub const NAME: &'static str = "pull";

/// One-line description of the command (`pull`).
pub const ABOUT: &'static str = "Fetches from remotes and fast-forwards local tracking branches if safe";

/// Name of the argument for `-c/--concurrent`.
pub const CONCURRENT_ARG: &'static str = "CONCURRENT";

/// Default number of concurrent fetches.
pub const CONCURRENT_DEFAULT: &'static str = "8";

/// Name of the argument for tags.
pub const TAG_ARG: &'static str = "TAG";

/// Group number for errors encountered when fetching.
pub const FETCH_FAILURE_GROUP: usize = 0;

/// Group number for errors encountered when working on branches.
pub const BRANCH_FAILURE_GROUP: usize = 1;

/// Group number for fetch successes.
pub const FETCH_SUCCESS_GROUP: usize = 100;

/// Group number for branch status messages.
pub const BRANCH_STATUS_GROUP: usize = 101;

/// Number of times per second to update status of operations, as well
/// as the UI showing the status.
pub const UPDATE_FREQUENCY: u64 = 100;

/// Number of milliseconds after which a terminal resize is considered
/// "settled."
pub const DEBOUNCE_MILLIS: u64 = 500;

// ----- State ----------------------------------------------------------------
/// Represents the state of the fetch/fast-forward for a remote.
#[derive(Clone, Copy, Debug, PartialEq, Eq, Structural)]
pub enum State {
    /// Fetch has not yet started.
    Pending,
    /// Fetch has been canceled by the user.
    Canceled,
    /// Fetch is in progress.
    Fetching,
    /// Fetch was successful, no tracking branches were ahead or behind.
    NoChange,
    /// Fetch was successful, one or more tracking branches was successfully
    /// fast-forwarded.
    Success,
    /// Fetch was successful, one or more tracking branches is ahead of its
    /// upstream.
    Warning,
    /// Fetch was unsuccessful or one or more fast-forwards failed (due to HEAD
    /// being dirty, or diverging local/upstream branches).
    Failure,
}

impl State {
    /// The state in which a fetch ends whose summary is of `kind`.
    pub open spec fn of_kind(kind: Kind) -> State {
        match kind {
            Kind::Neutral => State::NoChange,
            Kind::Success => State::Success,
            Kind::Warning => State::Warning,
            Kind::Failure => State::Failure,
        }
    }

    /// Whether nothing more happens to a task in this state.
    pub open spec fn is_terminal(self) -> bool {
        self != State::Pending && self != State::Fetching
    }

    /// Returns the state in which a fetch ends whose summary is of `kind`.
    pub fn from_kind(kind: Kind) -> (r: State)
        ensures
            r == State::of_kind(kind),
            r.is_terminal(),
            r != State::Canceled,
    {
        match kind {
            Kind::Neutral => State::NoChange,
            Kind::Success => State::Success,
            Kind::Warning => State::Warning,
            Kind::Failure => State::Failure,
        }
    }
}

// ----- TerminationState -----------------------------------------------------
/// Represents the termination state of the operation.
#[derive(Clone, Copy, Debug, PartialEq, Eq, Structural)]
pub enum TerminationState {
    /// Not terminating; running normally.
    Running,
    /// Soft termination; allow running fetches to complete, do not start any
    /// new ones.
    Soft,
    /// Hard termination; kill all fetch processes and exit.
    Hard,
}

// ----- Results --------------------------------------------------------------
/// The summaries of a run, one for each repository. A repository is known by
/// the position at which it was added.
pub struct Results {
    /// Summary of each repository.
    summaries: Vec<Summary>,
}

/// The values of a list of summaries.
pub open spec fn summary_views(summaries: Seq<Summary>) -> Seq<Seq<NoteView>> {
    summaries.map_values(|s: Summary| s@)
}

impl View for Results {
    type V = Seq<Seq<NoteView>>;

    closed spec fn view(&self) -> Seq<Seq<NoteView>> {
        summary_views(self.summaries@)
    }
}

impl Results {
    /// Creates and returns an empty set of results.
    pub fn new() -> (r: Self)
        ensures
            r@ == Seq::<Seq<NoteView>>::empty(),
    {
        let r = Self { summaries: Vec::new() };
        assert(r@ =~= Seq::<Seq<NoteView>>::empty());
        r
    }

    /// Returns the number of repositories.
    pub fn len(&self) -> (r: usize)
        ensures
            r == self@.len(),
    {
        self.summaries.len()
    }

    /// Adds a repository with its first summary and returns its position.
    pub fn insert(&mut self, summary: Summary) -> (repo: usize)
        ensures
            repo == old(self)@.len(),
            final(self)@ == old(self)@.push(summary@),
    {
        let repo = self.summaries.len();
        self.summaries.push(summary);
        assert(self@ =~= old(self)@.push(summary@));
        repo
    }

    /// Returns the summary of repository `repo`, if there is such a
    /// repository.
    pub fn get(&self, repo: usize) -> (r: Option<&Summary>)
        ensures
            r is Some == (repo < self@.len()),
            r is Some ==> r->0@ == self@[repo as int],
    {
        if repo < self.summaries.len() {
            Some(&self.summaries[repo])
        } else {
            None
        }
    }

    /// Appends the notes of `summary` to the summary of repository `repo`.
    pub fn merge(&mut self, repo: usize, summary: &Summary)
        requires
            repo < old(self)@.len(),
        ensures
            final(self)@ == old(self)@.update(repo as int, old(self)@[repo as int] + summary@),
    {
        let mut merged = self.summaries[repo].clone();
        merged.push_summary(summary);
        self.summaries.set(repo, merged);
        assert(self@ =~= old(self)@.update(repo as int, old(self)@[repo as int] + summary@));
    }
}

// ----- Scheduler ------------------------------------------------------------
/// A remote of a repository that is to be fetched.
pub struct Task {
    /// Position of the repository among the repositories of the run.
    repo: usize,
    /// Name of the remote.
    remote: String,
}

/// Mathematical value of a `Task`.
pub ghost struct TaskView {
    pub repo: nat,
    pub remote: Seq<char>,
}

impl View for Task {
    type V = TaskView;

    closed spec fn view(&self) -> TaskView {
        TaskView { repo: self.repo as nat, remote: self.remote@ }
    }
}

/// The values of a list of tasks.
pub open spec fn task_views(tasks: Seq<Task>) -> Seq<TaskView> {
    tasks.map_values(|t: Task| t@)
}

/// How many of `states` are `Fetching`.
pub open spec fn count_fetching(states: Seq<State>) -> nat
    decreases states.len(),
{
    if states.len() == 0 {
        0
    } else {
        count_fetching(states.drop_last()) + if states.last() == State::Fetching {
            1nat
        } else {
            0nat
        }
    }
}

/// Changing one state changes the number of fetches by that state alone.
pub proof fn lemma_count_update(states: Seq<State>, i: int, state: State)
    requires
        0 <= i < states.len(),
    ensures
        count_fetching(states.update(i, state)) + (if states[i] == State::Fetching {
            1nat
        } else {
            0nat
        }) == count_fetching(states) + (if state == State::Fetching {
            1nat
        } else {
            0nat
        }),
    decreases states.len(),
{
    let updated = states.update(i, state);
    if i == states.len() - 1 {
        assert(updated.drop_last() =~= states.drop_last());
    } else {
        assert(updated.drop_last() =~= states.drop_last().update(i, state));
        lemma_count_update(states.drop_last(), i, state);
    }
}

/// Adding a state that is not `Fetching` leaves the number of fetches as it
/// was.
pub proof fn lemma_count_push(states: Seq<State>, state: State)
    ensures
        count_fetching(states.push(state)) == count_fetching(states) + (if state == State::Fetching {
            1nat
        } else {
            0nat
        }),
{
    assert(states.push(state).drop_last() =~= states);
}

/// The schedule of a run as a mathematical value: every task with its state,
/// the queue, the limit on concurrent fetches, the termination state and the
/// summary of each repository.
pub ghost struct Schedule {
    /// The most fetches that may run at once.
    pub limit: nat,
    /// Every task of the run, in the order in which they were queued.
    pub tasks: Seq<TaskView>,
    /// The state of each task.
    pub states: Seq<State>,
    /// How many tasks have left the queue: the queue is what follows them.
    pub started: nat,
    /// Whether, and how, the run is being terminated.
    pub termination: TerminationState,
    /// The summary of each repository.
    pub results: Seq<Seq<NoteView>>,
}

impl Schedule {
    /// The number of fetches in progress.
    pub open spec fn active(self) -> nat {
        count_fetching(self.states)
    }

    /// What holds of every schedule: at most `limit` fetches are in progress,
    /// the queue holds exactly the pending tasks, and once termination has
    /// been asked for the queue is empty.
    pub open spec fn wf(self) -> bool {
        &&& self.limit >= 1
        &&& self.states.len() == self.tasks.len()
        &&& self.started <= self.tasks.len()
        &&& forall|i: int| self.started <= i < self.states.len() ==> self.states[i] == State::Pending
        &&& forall|i: int| 0 <= i < self.started ==> self.states[i] != State::Pending
        &&& forall|i: int| 0 <= i < self.tasks.len() ==> (#[trigger] self.tasks[i]).repo < self.results.len()
        &&& self.active() <= self.limit
        &&& self.termination != TerminationState::Running ==> self.started == self.tasks.len()
    }

    /// Whether the next task of the queue can be started: there is one, and
    /// fewer than `limit` fetches are in progress.
    pub open spec fn can_launch(self) -> bool {
        self.started < self.tasks.len() && self.active() < self.limit
    }

    /// The schedule after the next task of the queue has been started, where
    /// that can be done; else the schedule itself.
    pub open spec fn launch(self) -> Schedule {
        if self.can_launch() {
            Schedule {
                states: self.states.update(self.started as int, State::Fetching),
                started: self.started + 1,
                ..self
            }
        } else {
            self
        }
    }

    /// Whether `task` is a fetch in progress.
    pub open spec fn is_fetching(self, task: int) -> bool {
        0 <= task < self.states.len() && self.states[task] == State::Fetching
    }

    /// Whether the end of the fetch of `task` is taken note of: `task` is a
    /// fetch in progress, and the run has not been terminated hard. After
    /// hard termination the fetches are killed and report no more.
    pub open spec fn completes(self, task: int) -> bool {
        self.is_fetching(task) && self.termination != TerminationState::Hard
    }

    /// The schedule after the fetch of `task` has ended with `notes`, where
    /// that is taken note of; else the schedule itself. The notes are
    /// appended to the summary of the task's repository, once.
    pub open spec fn complete(self, task: int, notes: Seq<NoteView>) -> Schedule {
        if self.completes(task) {
            let repo = self.tasks[task].repo as int;
            Schedule {
                states: self.states.update(task, State::of_kind(worst(notes))),
                results: self.results.update(repo, self.results[repo] + notes),
                ..self
            }
        } else {
            self
        }
    }

    /// The schedule after every task of the queue has been canceled.
    pub open spec fn cancel_pending(self) -> Schedule {
        Schedule {
            states: Seq::new(
                self.states.len(),
                |i: int|
                    if i >= self.started {
                        State::Canceled
                    } else {
                        self.states[i]
                    },
            ),
            started: self.tasks.len(),
            termination: TerminationState::Soft,
            ..self
        }
    }

    /// Whether `received` termination signals move a running schedule to soft
    /// termination.
    pub open spec fn softens(self, received: nat) -> bool {
        self.termination == TerminationState::Running && received > 0
    }

    /// Whether `received` termination signals move the schedule to hard
    /// termination, be it already in soft termination or brought there by the
    /// same signals.
    pub open spec fn hardens(self, received: nat) -> bool {
        self.termination != TerminationState::Hard && received > 1
    }

    /// The schedule after it has learnt that `received` termination signals
    /// have arrived since the start of the run. The first signal cancels the
    /// queue; the second asks for the fetches in progress to be killed.
    pub open spec fn signal(self, received: nat) -> Schedule {
        let soft = if self.softens(received) {
            self.cancel_pending()
        } else {
            self
        };
        if self.hardens(received) {
            Schedule { termination: TerminationState::Hard, ..soft }
        } else {
            soft
        }
    }

    /// Whether the run is over: it was terminated hard, or no fetch is in
    /// progress and the queue is empty.
    pub open spec fn finished(self) -> bool {
        self.termination == TerminationState::Hard || (self.active() == 0 && self.started
            == self.tasks.len())
    }

    /// Whether the run ends with a report: it does unless it was terminated
    /// hard.
    pub open spec fn reports(self) -> bool {
        self.termination != TerminationState::Hard
    }
}

impl Schedule {
    /// The schedule after the fetches in `done` have ended, one after the
    /// other, each with its task and its notes.
    pub open spec fn complete_all(self, done: Seq<(int, Seq<NoteView>)>) -> Schedule
        decreases done.len(),
    {
        if done.len() == 0 {
            self
        } else {
            self.complete_all(done.drop_last()).complete(done.last().0, done.last().1)
        }
    }

    /// The schedule after as many tasks of the queue have been started as
    /// the limit allows.
    pub open spec fn launch_all(self) -> Schedule
        decreases self.tasks.len() - self.started,
    {
        if self.can_launch() {
            self.launch().launch_all()
        } else {
            self
        }
    }

    /// One iteration of the scheduler's loop: the fetches in `done` have
    /// ended, `received` termination signals have arrived so far, and as
    /// many tasks are started as the limit allows.
    pub open spec fn tick(self, done: Seq<(int, Seq<NoteView>)>, received: nat) -> Schedule {
        self.complete_all(done).signal(received).launch_all()
    }
}

/// Starting a task keeps the schedule well-formed, so that no more than
/// `limit` fetches are in progress afterwards.
pub proof fn lemma_launch_keeps(s: Schedule)
    requires
        s.wf(),
    ensures
        s.launch().wf(),
        s.launch().active() <= s.limit,
        s.can_launch() ==> s.launch().active() == s.active() + 1,
{
    if s.can_launch() {
        lemma_count_update(s.states, s.started as int, State::Fetching);
    }
}

/// The end of a fetch keeps the schedule well-formed and frees one place.
pub proof fn lemma_complete_keeps(s: Schedule, task: int, notes: Seq<NoteView>)
    requires
        s.wf(),
    ensures
        s.complete(task, notes).wf(),
        s.completes(task) ==> s.complete(task, notes).active() + 1 == s.active(),
        s.completes(task) ==> s.complete(task, notes).states[task].is_terminal(),
{
    if s.completes(task) {
        lemma_count_update(s.states, task, State::of_kind(worst(notes)));
    }
}

/// Canceling the queue changes no fetch in progress.
proof fn lemma_cancel_count(states: Seq<State>, started: int)
    requires
        0 <= started <= states.len(),
        forall|i: int| started <= i < states.len() ==> states[i] == State::Pending,
    ensures
        count_fetching(
            Seq::new(
                states.len(),
                |i: int|
                    if i >= started {
                        State::Canceled
                    } else {
                        states[i]
                    },
            ),
        ) == count_fetching(states),
    decreases states.len() - started,
{
    let canceled = Seq::new(
        states.len(),
        |i: int|
            if i >= started {
                State::Canceled
            } else {
                states[i]
            },
    );
    if started == states.len() {
        assert(canceled =~= states);
    } else {
        let next = Seq::new(
            states.len(),
            |i: int|
                if i >= started + 1 {
                    State::Canceled
                } else {
                    states[i]
                },
        );
        lemma_cancel_count(states, started + 1);
        assert(canceled =~= next.update(started, State::Canceled));
        lemma_count_update(next, started, State::Canceled);
    }
}

/// Termination signals keep the schedule well-formed and start no fetch.
pub proof fn lemma_signal_keeps(s: Schedule, received: nat)
    requires
        s.wf(),
    ensures
        s.signal(received).wf(),
        s.signal(received).active() == s.active(),
{
    if s.softens(received) {
        lemma_cancel_count(s.states, s.started as int);
    }
}

/// After a termination signal no task goes from `Pending` to `Fetching`: the
/// first signal turns every pending task into a canceled one and changes no
/// other, and from then on no task is pending and none can be started.
pub proof fn lemma_signal_cancels(s: Schedule, received: nat)
    requires
        s.wf(),
        received >= 1,
    ensures
        s.signal(received).termination != TerminationState::Running,
        s.signal(received).states.len() == s.states.len(),
        forall|i: int|
            0 <= i < s.states.len() ==> #[trigger] s.signal(received).states[i] == (if s.states[i]
                == State::Pending {
                State::Canceled
            } else {
                s.states[i]
            }),
        !s.signal(received).can_launch(),
        s.signal(received).launch() == s.signal(received),
{
}

/// Once termination has been asked for, no task is pending and starting a
/// task changes nothing.
pub proof fn lemma_terminating_starts_nothing(s: Schedule)
    requires
        s.wf(),
        s.termination != TerminationState::Running,
    ensures
        forall|i: int| 0 <= i < s.states.len() ==> s.states[i] != State::Pending,
        !s.can_launch(),
        s.launch() == s,
{
}

/// A second termination signal ends the run without a report.
pub proof fn lemma_second_signal_ends(s: Schedule, received: nat)
    requires
        s.wf(),
        received >= 2,
    ensures
        s.signal(received).termination == TerminationState::Hard,
        s.signal(received).finished(),
        !s.signal(received).reports(),
{
}

/// A task whose fetch has ended is not merged again: a second end of the same
/// fetch changes nothing.
pub proof fn lemma_merged_once(s: Schedule, task: int, first: Seq<NoteView>, second: Seq<NoteView>)
    requires
        s.wf(),
        s.completes(task),
    ensures
        s.complete(task, first).complete(task, second) == s.complete(task, first),
        s.complete(task, first).results[s.tasks[task].repo as int] == s.results[s.tasks[task].repo as int]
            + first,
{
}

/// Where no fetch is in progress, no task is in the state `Fetching`.
pub proof fn lemma_none_fetching(states: Seq<State>)
    requires
        count_fetching(states) == 0,
    ensures
        forall|i: int| 0 <= i < states.len() ==> states[i] != State::Fetching,
    decreases states.len(),
{
    if states.len() > 0 {
        lemma_none_fetching(states.drop_last());
        assert forall|i: int| 0 <= i < states.len() implies states[i] != State::Fetching by {
            if i < states.len() - 1 {
                assert(states[i] == states.drop_last()[i]);
            }
        }
    }
}

/// When a run is over that was not terminated hard, every task has reached
/// a state in which nothing more happens to it.
pub proof fn lemma_finished_all_terminal(s: Schedule)
    requires
        s.wf(),
        s.finished(),
        s.reports(),
    ensures
        forall|i: int| 0 <= i < s.states.len() ==> (#[trigger] s.states[i]).is_terminal(),
{
    lemma_none_fetching(s.states);
}

/// After hard termination no fetch in progress is given another state and
/// no summary is merged: the end of a fetch changes nothing.
pub proof fn lemma_terminated_takes_no_results(s: Schedule, task: int, notes: Seq<NoteView>)
    requires
        s.termination == TerminationState::Hard,
    ensures
        s.complete(task, notes) == s,
{
}

/// What can happen to a schedule.
pub ghost enum Event {
    /// The next task of the queue is started, if one can be.
    Launch,
    /// The fetch of a task has ended with these notes.
    Complete(int, Seq<NoteView>),
    /// This many termination signals have arrived so far.
    Signal(nat),
}

impl Schedule {
    /// The schedule after `event`.
    pub open spec fn step(self, event: Event) -> Schedule {
        match event {
            Event::Launch => self.launch(),
            Event::Complete(task, notes) => self.complete(task, notes),
            Event::Signal(received) => self.signal(received),
        }
    }

    /// The schedule after `events`, one after the other.
    pub open spec fn run(self, events: Seq<Event>) -> Schedule
        decreases events.len(),
    {
        if events.len() == 0 {
            self
        } else {
            self.run(events.drop_last()).step(events.last())
        }
    }
}

/// A task that has reached a state in which nothing more happens to it
/// keeps that state, whatever happens to the schedule.
pub proof fn lemma_terminal_stays(s: Schedule, event: Event, task: int)
    requires
        s.wf(),
        0 <= task < s.states.len(),
        s.states[task].is_terminal(),
    ensures
        s.step(event).states[task] == s.states[task],
{
}

/// Whatever happens, in whatever order, the number of fetches in progress
/// never exceeds the limit.
pub proof fn lemma_never_over_limit(s: Schedule, events: Seq<Event>)
    requires
        s.wf(),
    ensures
        s.run(events).wf(),
        s.run(events).limit == s.limit,
        s.run(events).active() <= s.limit,
    decreases events.len(),
{
    if events.len() > 0 {
        let before = s.run(events.drop_last());
        lemma_never_over_limit(s, events.drop_last());
        match events.last() {
            Event::Launch => lemma_launch_keeps(before),
            Event::Complete(task, notes) => lemma_complete_keeps(before, task, notes),
            Event::Signal(received) => lemma_signal_keeps(before, received),
        }
    }
}


// ----- Scheduler ------------------------------------------------------------
/// What a termination signal has asked for.
pub struct Signaled {
    /// The tasks that were canceled, in the order of the queue.
    pub canceled: Vec<usize>,
    /// Whether the fetches in progress are to be killed.
    pub terminate: bool,
}

/// Owns the queue of tasks, the limit on concurrent fetches, the summaries of
/// the repositories and the termination state of a run.
pub struct Scheduler<'a> {
    /// The most fetches that may run at once.
    concurrent: usize,
    /// The repositories of the run.
    repos: Vec<&'a Repo>,
    /// The summary of each repository.
    results: Results,
    /// Every task of the run, in the order in which they were queued.
    tasks: Vec<Task>,
    /// The state of each task.
    states: Vec<State>,
    /// How many tasks have left the queue.
    started: usize,
    /// How many fetches are in progress.
    active: usize,
    /// Whether, and how, the run is being terminated.
    termination: TerminationState,
}

impl<'a> View for Scheduler<'a> {
    type V = Schedule;

    closed spec fn view(&self) -> Schedule {
        Schedule {
            limit: self.concurrent as nat,
            tasks: task_views(self.tasks@),
            states: self.states@,
            started: self.started as nat,
            termination: self.termination,
            results: self.results@,
        }
    }
}

/// The message with which a limit of `concurrent` fetches is refused.
pub open spec fn concurrent_refusal(concurrent: nat) -> Seq<char> {
    CONCURRENT_ARG@ + " must be one or greater (got '"@ + crate::text::decimal(concurrent) + "')"@
}

impl<'a> Scheduler<'a> {
    /// The scheduler's books agree: its schedule is well-formed, the count of
    /// fetches in progress is right and every repository has a summary.
    pub closed spec fn wf(&self) -> bool {
        &&& self@.wf()
        &&& self.active == count_fetching(self.states@)
        &&& self.repos@.len() == self.results@.len()
    }

    /// The repositories of the run.
    pub closed spec fn repos(&self) -> Seq<&'a Repo> {
        self.repos@
    }

    /// The schedule of a well-formed scheduler is well-formed, and it has a
    /// summary for every repository.
    pub proof fn lemma_wf(&self)
        requires
            self.wf(),
        ensures
            self@.wf(),
            self.repos().len() == self@.results.len(),
    {
    }

    /// Creates a scheduler that runs at most `concurrent` fetches at once. A
    /// limit below one is refused.
    pub fn new(concurrent: usize) -> (r: Result<Self, Error>)
        ensures
            r is Ok == (concurrent >= 1),
            r is Ok ==> r->Ok_0.wf() && r->Ok_0.repos().len() == 0 && r->Ok_0@ == (Schedule {
                limit: concurrent as nat,
                tasks: Seq::empty(),
                states: Seq::empty(),
                started: 0,
                termination: TerminationState::Running,
                results: Seq::empty(),
            }),
            r is Err ==> r->Err_0@ == concurrent_refusal(concurrent as nat),
    {
        if concurrent < 1 {
            let mut message = String::from_str(CONCURRENT_ARG);
            message.append(" must be one or greater (got '");
            message.append(decimal_string(concurrent).as_str());
            message.append("')");
            return Err(Error::new(message.as_str()));
        }
        let r = Self {
            concurrent: concurrent,
            repos: Vec::new(),
            results: Results::new(),
            tasks: Vec::new(),
            states: Vec::new(),
            started: 0,
            active: 0,
            termination: TerminationState::Running,
        };
        assert(r@.tasks =~= Seq::empty());
        Ok(r)
    }

    /// Adds a repository with its first summary and returns its position.
    pub fn add_repo(&mut self, repo: &'a Repo, summary: Summary) -> (id: usize)
        requires
            old(self).wf(),
        ensures
            final(self).wf(),
            id == old(self)@.results.len(),
            final(self).repos() == old(self).repos().push(repo),
            final(self)@ == (Schedule { results: old(self)@.results.push(summary@), ..old(self)@ }),
    {
        self.repos.push(repo);
        self.results.insert(summary)
    }

    /// Queues the fetch of `remote` for repository `repo` and returns the
    /// task's position, or nothing where there is no such repository. Once
    /// termination has been asked for, the task is canceled as it is added.
    pub fn add_task(&mut self, repo: usize, remote: &str) -> (task: Option<usize>)
        requires
            old(self).wf(),
        ensures
            final(self).wf(),
            final(self).repos() == old(self).repos(),
            task is Some == (repo < old(self)@.results.len()),
            task is None ==> final(self)@ == old(self)@,
            task is Some ==> task->0 == old(self)@.tasks.len() && final(self)@ == (Schedule {
                tasks: old(self)@.tasks.push(TaskView { repo: repo as nat, remote: remote@ }),
                states: old(self)@.states.push(
                    if old(self)@.termination == TerminationState::Running {
                        State::Pending
                    } else {
                        State::Canceled
                    },
                ),
                started: if old(self)@.termination == TerminationState::Running {
                    old(self)@.started
                } else {
                    old(self)@.started + 1
                },
                ..old(self)@
            }),
    {
        if repo >= self.results.len() {
            return None;
        }
        let task = self.tasks.len();
        let running = self.termination == TerminationState::Running;
        let state = if running {
            State::Pending
        } else {
            State::Canceled
        };
        proof {
            lemma_count_push(self.states@, state);
        }
        self.tasks.push(Task { repo: repo, remote: remote.to_owned() });
        self.states.push(state);
        if !running {
            self.started = self.tasks.len();
        }
        assert(task_views(self.tasks@) =~= task_views(old(self).tasks@).push(
            TaskView { repo: repo as nat, remote: remote@ },
        ));
        Some(task)
    }

    /// Returns the number of tasks.
    pub fn len(&self) -> (r: usize)
        requires
            self.wf(),
        ensures
            r == self@.tasks.len(),
    {
        self.tasks.len()
    }

    /// Returns the repository and the remote of task `task`.
    pub fn task(&self, task: usize) -> (r: Option<(&'a Repo, &str)>)
        requires
            self.wf(),
        ensures
            r is Some == (task < self@.tasks.len()),
            r matches Some(found) ==> found.0 == self.repos()[self@.tasks[task as int].repo as int]
                && found.1@ == self@.tasks[task as int].remote,
    {
        if task < self.tasks.len() {
            let t = &self.tasks[task];
            assert(self@.tasks[task as int] == t@);
            Some((self.repos[t.repo], t.remote.as_str()))
        } else {
            None
        }
    }

    /// Returns the position of the repository of task `task`.
    pub fn repo_of(&self, task: usize) -> (r: Option<usize>)
        requires
            self.wf(),
        ensures
            r is Some == (task < self@.tasks.len()),
            r is Some ==> r->0 == self@.tasks[task as int].repo && r->0 < self@.results.len(),
    {
        if task < self.tasks.len() {
            assert(self@.tasks[task as int] == self.tasks@[task as int]@);
            Some(self.tasks[task].repo)
        } else {
            None
        }
    }

    /// Returns the state of task `task`.
    pub fn state(&self, task: usize) -> (r: Option<State>)
        requires
            self.wf(),
        ensures
            r is Some == (task < self@.states.len()),
            r is Some ==> r->0 == self@.states[task as int],
    {
        if task < self.states.len() {
            Some(self.states[task])
        } else {
            None
        }
    }

    /// Returns the summaries of the repositories.
    pub fn results(&self) -> (r: &Results)
        ensures
            r@ == self@.results,
    {
        &self.results
    }

    /// Returns the number of fetches in progress.
    pub fn active(&self) -> (r: usize)
        requires
            self.wf(),
        ensures
            r == self@.active(),
            r <= self@.limit,
    {
        self.active
    }

    /// Returns the most fetches that may run at once.
    pub fn concurrent(&self) -> (r: usize)
        ensures
            r == self@.limit,
    {
        self.concurrent
    }

    /// Returns whether, and how, the run is being terminated.
    pub fn termination(&self) -> (r: TerminationState)
        ensures
            r == self@.termination,
    {
        self.termination
    }

    /// Records that the fetch of `task` has ended with `summary`: merges the
    /// summary into that of the repository, once, and frees a place. Returns
    /// the state in which the task ended, or nothing, with nothing changed,
    /// where `task` was no fetch in progress or the run has been terminated
    /// hard.
    pub fn complete(&mut self, task: usize, summary: &Summary) -> (r: Option<State>)
        requires
            old(self).wf(),
        ensures
            final(self).wf(),
            final(self).repos() == old(self).repos(),
            final(self)@ == old(self)@.complete(task as int, summary@),
            r is Some == old(self)@.completes(task as int),
            r is Some ==> r->0 == State::of_kind(worst(summary@)),
    {
        if task >= self.states.len() {
            return None;
        }
        match self.termination {
            TerminationState::Hard => {
                return None;
            },
            _ => {},
        }
        match self.states[task] {
            State::Fetching => {},
            _ => {
                return None;
            },
        }
        let state = State::from_kind(summary.kind());
        let repo = self.tasks[task].repo;
        proof {
            assert(old(self)@.tasks[task as int] == self.tasks@[task as int]@);
            lemma_count_update(self.states@, task as int, state);
            lemma_complete_keeps(old(self)@, task as int, summary@);
        }
        self.results.merge(repo, summary);
        self.states.set(task, state);
        self.active = self.active - 1;
        Some(state)
    }

    /// Takes note that `received` termination signals have arrived since the
    /// start of the run. The first cancels every task of the queue; the second
    /// asks for the fetches in progress to be killed.
    pub fn signal(&mut self, received: usize) -> (r: Signaled)
        requires
            old(self).wf(),
        ensures
            final(self).wf(),
            final(self).repos() == old(self).repos(),
            final(self)@ == old(self)@.signal(received as nat),
            r.terminate == old(self)@.hardens(received as nat),
            r.canceled@ == (if old(self)@.softens(received as nat) {
                Seq::new(
                    (old(self)@.tasks.len() - old(self)@.started) as nat,
                    |k: int| (old(self)@.started + k) as usize,
                )
            } else {
                Seq::empty()
            }),
    {
        let mut canceled: Vec<usize> = Vec::new();
        let mut terminate = false;
        proof {
            lemma_signal_keeps(old(self)@, received as nat);
        }
        if self.termination == TerminationState::Running && received > 0 {
            let first = self.started;
            let ghost initial = self.states@;
            proof {
                lemma_cancel_count(initial, first as int);
            }
            let mut i: usize = self.started;
            while i < self.states.len()
                invariant
                    first <= i <= self.states.len(),
                    self.states@.len() == initial.len(),
                    self.started == first,
                    self.tasks == old(self).tasks,
                    self.results == old(self).results,
                    self.repos == old(self).repos,
                    self.concurrent == old(self).concurrent,
                    self.active == old(self).active,
                    self.termination == old(self).termination,
                    forall|k: int|
                        0 <= k < initial.len() ==> #[trigger] self.states@[k] == (if first <= k < i {
                            State::Canceled
                        } else {
                            initial[k]
                        }),
                    canceled@ =~= Seq::new((i - first) as nat, |k: int| (first + k) as usize),
                decreases self.states.len() - i,
            {
                self.states.set(i, State::Canceled);
                canceled.push(i);
                i = i + 1;
            }
            self.started = self.tasks.len();
            self.termination = TerminationState::Soft;
            assert(self.states@ =~= old(self)@.cancel_pending().states);
        }
        if self.termination == TerminationState::Soft && received > 1 {
            terminate = true;
            self.termination = TerminationState::Hard;
        }
        Signaled { canceled: canceled, terminate: terminate }
    }

    /// Starts the next task of the queue, where there is one and fewer fetches
    /// are in progress than may be, and returns its position. Once termination
    /// has been asked for, nothing is started.
    pub fn launch(&mut self) -> (r: Option<usize>)
        requires
            old(self).wf(),
        ensures
            final(self).wf(),
            final(self).repos() == old(self).repos(),
            final(self)@ == old(self)@.launch(),
            r is Some == old(self)@.can_launch(),
            r is Some ==> r->0 == old(self)@.started && old(self)@.termination
                == TerminationState::Running,
    {
        if self.active < self.concurrent && self.started < self.tasks.len() {
            let task = self.started;
            proof {
                lemma_count_update(self.states@, task as int, State::Fetching);
                lemma_launch_keeps(old(self)@);
            }
            self.states.set(task, State::Fetching);
            self.started = self.started + 1;
            self.active = self.active + 1;
            Some(task)
        } else {
            None
        }
    }

    /// Returns whether the run is over: it was terminated hard, or no fetch is
    /// in progress and the queue is empty.
    pub fn finished(&self) -> (r: bool)
        requires
            self.wf(),
        ensures
            r == self@.finished(),
    {
        match self.termination {
            TerminationState::Hard => true,
            _ => self.active == 0 && self.started == self.tasks.len(),
        }
    }

    /// Returns whether the run ends with a report: it does unless it was
    /// terminated hard.
    pub fn reports(&self) -> (r: bool)
        ensures
            r == self@.reports(),
    {
        match self.termination {
            TerminationState::Hard => false,
            _ => true,
        }
    }
}


// ----- fetch ----------------------------------------------------------------
/// How the fetch of a remote ended.
pub enum Fetched {
    /// The fetch process exited with status zero.
    Succeeded,
    /// The fetch process exited with another status; what it wrote is kept.
    Failed {
        /// What the process wrote to its standard output.
        stdout: String,
        /// What the process wrote to its standard error.
        stderr: String,
    },
    /// The end of the fetch process could not be observed; the text says why.
    Lost(String),
}

/// What a worker does after it has looked at its fetch process and at its
/// cancellation channel.
#[derive(Clone, Copy, Debug, PartialEq, Eq, Structural)]
pub enum Poll {
    /// The process has exited: collect what it wrote and go on to the
    /// branches.
    Collect,
    /// Termination was asked for: kill the process group and return an empty
    /// summary.
    Kill,
    /// Neither: sleep one tick and look again.
    Wait,
}

/// Decides what a worker does next. A process that has exited is collected
/// even if termination was asked for.
pub fn poll(exited: bool, cancel: bool) -> (r: Poll)
    ensures
        r == (if exited {
            Poll::Collect
        } else if cancel {
            Poll::Kill
        } else {
            Poll::Wait
        }),
{
    if exited {
        Poll::Collect
    } else if cancel {
        Poll::Kill
    } else {
        Poll::Wait
    }
}

/// What is reported of a fetch process that failed: both of its outputs
/// under their headings where it wrote to both, else its standard output
/// where it wrote there, else its standard error.
pub open spec fn failure_output(stdout: Seq<char>, stderr: Seq<char>) -> Seq<char> {
    if stdout.len() > 0 && stderr.len() > 0 {
        "STDOUT:\n"@ + stdout + "\nSTDERR:\n"@ + stderr
    } else if stdout.len() > 0 {
        stdout
    } else {
        stderr
    }
}

/// The reason that is reported for a fetch that did not succeed.
pub open spec fn failure_reason(fetched: Fetched) -> Seq<char> {
    match fetched {
        Fetched::Succeeded => Seq::empty(),
        Fetched::Failed { stdout, stderr } => failure_output(stdout@, stderr@),
        Fetched::Lost(why) => why@,
    }
}

/// The note on the fetch of the remote `name`.
pub open spec fn fetch_note(name: Seq<char>, fetched: Fetched) -> NoteView {
    match fetched {
        Fetched::Succeeded => NoteView {
            group: FETCH_SUCCESS_GROUP as nat,
            kind: Kind::Neutral,
            message: "fetched from "@ + name,
        },
        _ => NoteView {
            group: FETCH_FAILURE_GROUP as nat,
            kind: Kind::Failure,
            message: "failed to fetch from "@ + name + ": "@ + failure_reason(fetched),
        },
    }
}

/// Returns what is reported of a fetch process that failed and wrote
/// `stdout` and `stderr`.
pub fn failure_text(stdout: &str, stderr: &str) -> (r: String)
    ensures
        r@ == failure_output(stdout@, stderr@),
{
    if !stdout.is_empty() && !stderr.is_empty() {
        let mut rv = String::from_str("STDOUT:\n");
        rv.append(stdout);
        rv.append("\nSTDERR:\n");
        rv.append(stderr);
        rv
    } else if !stdout.is_empty() {
        stdout.to_owned()
    } else {
        stderr.to_owned()
    }
}

/// Begins the summary of the fetch of the remote `name` with the note on how
/// the fetch ended, and says whether the branches of the remote are to be
/// looked at: they are where the fetch succeeded.
pub fn begin_summary(name: &str, fetched: &Fetched) -> (r: (Summary, bool))
    ensures
        r.0@ == seq![fetch_note(name@, *fetched)],
        r.1 == (*fetched is Succeeded),
{
    let mut summary = Summary::new();
    let proceed = match fetched {
        Fetched::Succeeded => {
            let mut m = String::from_str("fetched from ");
            m.append(name);
            summary.push_note(Note::new(FETCH_SUCCESS_GROUP, Kind::Neutral, m.as_str()));
            true
        },
        Fetched::Failed { stdout, stderr } => {
            let mut m = String::from_str("failed to fetch from ");
            m.append(name);
            m.append(": ");
            m.append(failure_text(stdout.as_str(), stderr.as_str()).as_str());
            summary.push_note(Note::new(FETCH_FAILURE_GROUP, Kind::Failure, m.as_str()));
            false
        },
        Fetched::Lost(why) => {
            let mut m = String::from_str("failed to fetch from ");
            m.append(name);
            m.append(": ");
            m.append(why.as_str());
            summary.push_note(Note::new(FETCH_FAILURE_GROUP, Kind::Failure, m.as_str()));
            false
        },
    };
    assert(summary@ =~= seq![fetch_note(name@, *fetched)]);
    (summary, proceed)
}

/// The failure notes for the branches that could not be worked on, one for
/// each message.
pub open spec fn branch_failures(messages: Seq<Seq<char>>) -> Seq<NoteView> {
    messages.map_values(
        |m: Seq<char>| NoteView { group: BRANCH_FAILURE_GROUP as nat, kind: Kind::Failure, message: m },
    )
}

/// Adds to `summary` a failure note for each of `errors`.
pub fn note_branch_errors(summary: &mut Summary, errors: &[Error])
    ensures
        final(summary)@ == old(summary)@ + branch_failures(crate::ui::error_views(errors@)),
{
    let ghost messages = crate::ui::error_views(errors@);
    let mut i: usize = 0;
    assert(summary@ =~= old(summary)@ + branch_failures(messages.take(0)));
    while i < errors.len()
        invariant
            i <= errors.len(),
            messages == crate::ui::error_views(errors@),
            summary@ == old(summary)@ + branch_failures(messages.take(i as int)),
        decreases errors.len() - i,
    {
        let ghost before = summary@;
        summary.push_note(Note::new(BRANCH_FAILURE_GROUP, Kind::Failure, errors[i].message()));
        assert(branch_failures(messages.take(i + 1)) =~= branch_failures(messages.take(i as int)).push(
            NoteView {
                group: BRANCH_FAILURE_GROUP as nat,
                kind: Kind::Failure,
                message: messages[i as int],
            },
        ));
        assert(summary@ =~= old(summary)@ + branch_failures(messages.take(i + 1)));
        i = i + 1;
    }
    assert(messages.take(i as int) =~= messages);
}

// ----- remotes --------------------------------------------------------------
/// The note for a remote whose name is not valid text.
pub open spec fn skipped_remote_note() -> NoteView {
    NoteView {
        group: FETCH_FAILURE_GROUP as nat,
        kind: Kind::Failure,
        message: "skipped remote with invalid utf-8 name"@,
    }
}

/// The names among `remotes` that are valid text, in their order.
pub open spec fn valid_remotes(remotes: Seq<Option<String>>) -> Seq<Seq<char>>
    decreases remotes.len(),
{
    if remotes.len() == 0 {
        Seq::empty()
    } else {
        match remotes.last() {
            Some(name) => valid_remotes(remotes.drop_last()).push(name@),
            None => valid_remotes(remotes.drop_last()),
        }
    }
}

/// One note for each of `remotes` whose name is not valid text.
pub open spec fn skipped_remotes(remotes: Seq<Option<String>>) -> Seq<NoteView>
    decreases remotes.len(),
{
    if remotes.len() == 0 {
        Seq::empty()
    } else {
        match remotes.last() {
            Some(_) => skipped_remotes(remotes.drop_last()),
            None => skipped_remotes(remotes.drop_last()).push(skipped_remote_note()),
        }
    }
}

/// The remotes of a repository that are to be fetched.
pub open spec fn survey_names(listing: Result<Vec<Option<String>>, String>) -> Seq<Seq<char>> {
    match listing {
        Ok(remotes) => valid_remotes(remotes@),
        Err(_) => Seq::empty(),
    }
}

/// The notes with which the summary of a repository begins: one for each
/// remote that is passed over, or one that says why the remotes could not be
/// listed.
pub open spec fn survey_notes(listing: Result<Vec<Option<String>>, String>) -> Seq<NoteView> {
    match listing {
        Ok(remotes) => skipped_remotes(remotes@),
        Err(why) => seq![
            NoteView {
                group: FETCH_FAILURE_GROUP as nat,
                kind: Kind::Failure,
                message: "failed to get remotes ("@ + why@ + ")"@,
            },
        ],
    }
}

/// Goes through what a repository said of its remotes: a name is given for
/// each remote, or nothing where the name is not valid text, or the reason
/// why the remotes could not be listed. Returns the summary with which the
/// repository begins and the names of the remotes to fetch.
pub fn survey(listing: &Result<Vec<Option<String>>, String>) -> (r: (Summary, Vec<String>))
    ensures
        r.0@ == survey_notes(*listing),
        crate::app::text_views(r.1@) == survey_names(*listing),
{
    let mut summary = Summary::new();
    let mut names: Vec<String> = Vec::new();
    match listing {
        Ok(remotes) => {
            let mut i: usize = 0;
            assert(remotes@.take(0) =~= Seq::empty());
            while i < remotes.len()
                invariant
                    i <= remotes.len(),
                    summary@ =~= skipped_remotes(remotes@.take(i as int)),
                    crate::app::text_views(names@) =~= valid_remotes(remotes@.take(i as int)),
                decreases remotes.len() - i,
            {
                let ghost before = names@;
                assert(remotes@.take(i + 1).drop_last() =~= remotes@.take(i as int));
                assert(remotes@.take(i + 1).last() == remotes@[i as int]);
                match &remotes[i] {
                    Some(name) => {
                        names.push(name.clone());
                        assert(crate::app::text_views(names@) =~= crate::app::text_views(before).push(
                            name@,
                        ));
                    },
                    None => {
                        summary.push_note(
                            Note::new(
                                FETCH_FAILURE_GROUP,
                                Kind::Failure,
                                "skipped remote with invalid utf-8 name",
                            ),
                        );
                    },
                }
                i = i + 1;
            }
            assert(remotes@.take(i as int) =~= remotes@);
        },
        Err(why) => {
            let mut m = String::from_str("failed to get remotes (");
            m.append(why.as_str());
            m.append(")");
            summary.push_note(Note::new(FETCH_FAILURE_GROUP, Kind::Failure, m.as_str()));
            assert(summary@ =~= survey_notes(*listing));
            assert(crate::app::text_views(names@) =~= Seq::empty());
        },
    }
    (summary, names)
}

// ----- concurrency ----------------------------------------------------------
/// Whether `c` is one of the ten decimal digits.
pub open spec fn is_digit(c: char) -> bool {
    48 <= c as u32 <= 57
}

/// The number that the decimal digits `digits` write.
pub open spec fn digits_value(digits: Seq<char>) -> nat
    decreases digits.len(),
{
    if digits.len() == 0 {
        0
    } else {
        digits_value(digits.drop_last()) * 10 + (digits.last() as u32 - 48) as nat
    }
}

/// The text without the plus sign that may stand before its digits.
pub open spec fn unsigned(text: Seq<char>) -> Seq<char> {
    if text.len() > 0 && text[0] == '+' {
        text.drop_first()
    } else {
        text
    }
}

/// Whether a text writes a number that a machine integer holds: an optional
/// plus sign, then decimal digits and nothing else, at least one, and a value
/// within the range.
pub open spec fn is_number(text: Seq<char>) -> bool {
    &&& unsigned(text).len() > 0
    &&& forall|i: int| 0 <= i < unsigned(text).len() ==> is_digit(#[trigger] unsigned(text)[i])
    &&& digits_value(unsigned(text)) <= usize::MAX
}

/// The text of the error with which `str::parse::<usize>` refuses a text
/// that writes no number.
pub uninterp spec fn parse_failure(text: Seq<char>) -> Seq<char>;

/// What parsing makes of a text: the number that it writes, or the text of
/// the error.
pub open spec fn parsed(text: Seq<char>) -> Result<usize, Seq<char>> {
    if is_number(text) {
        Ok(digits_value(unsigned(text)) as usize)
    } else {
        Err(parse_failure(text))
    }
}

/// `str::parse::<usize>`, with the error displayed. The standard library
/// documents that the string is expected to be an optional plus sign followed
/// by only decimal digits, and that a number out of range is an error; the
/// text of the error has a name.
#[verifier::external_body]
fn parse_usize(text: &str) -> (r: Result<usize, String>)
    ensures
        r is Ok == is_number(text@),
        r is Ok ==> r->Ok_0 == digits_value(unsigned(text@)),
        r is Err ==> r->Err_0@ == parse_failure(text@),
{
    match text.parse::<usize>() {
        Ok(n) => Ok(n),
        Err(e) => Err(e.to_string()),
    }
}

/// What the value given for the number of concurrent fetches comes to, once
/// it has been parsed: the number where it is one or greater, else the
/// message of the fatal error.
pub open spec fn concurrency(value: Seq<char>, parsed: Result<usize, Seq<char>>) -> Result<
    usize,
    Seq<char>,
> {
    match parsed {
        Ok(concurrent) => if concurrent < 1 {
            Err(concurrent_refusal(concurrent as nat))
        } else {
            Ok(concurrent)
        },
        Err(why) => Err(
            "failed to interpret value '"@ + value + "' for "@ + CONCURRENT_ARG@ + " ("@ + why + ")"@,
        ),
    }
}

/// Validates the number of concurrent fetches after `value` has been parsed
/// into `parsed`.
pub fn check_concurrent(value: &str, parsed: Result<usize, String>) -> (r: Result<usize, Error>)
    ensures
        match concurrency(
            value@,
            match parsed {
                Ok(n) => Ok(n),
                Err(why) => Err(why@),
            },
        ) {
            Ok(n) => r == Ok::<usize, Error>(n),
            Err(message) => r is Err && r->Err_0@ == message,
        },
{
    match parsed {
        Ok(concurrent) => {
            if concurrent < 1 {
                let mut m = String::from_str(CONCURRENT_ARG);
                m.append(" must be one or greater (got '");
                m.append(decimal_string(concurrent).as_str());
                m.append("')");
                Err(Error::new(m.as_str()))
            } else {
                Ok(concurrent)
            }
        },
        Err(why) => {
            let mut m = String::from_str("failed to interpret value '");
            m.append(value);
            m.append("' for ");
            m.append(CONCURRENT_ARG);
            m.append(" (");
            m.append(why.as_str());
            m.append(")");
            Err(Error::new(m.as_str()))
        },
    }
}

/// Reads the number of concurrent fetches from the value of the argument:
/// every number from one on that a machine integer holds is accepted; zero
/// and what is no number give the fatal error.
pub fn parse_concurrent(value: &str) -> (r: Result<usize, Error>)
    ensures
        match concurrency(value@, parsed(value@)) {
            Ok(n) => r == Ok::<usize, Error>(n),
            Err(message) => r is Err && r->Err_0@ == message,
        },
        is_number(value@) && digits_value(unsigned(value@)) >= 1 ==> r == Ok::<usize, Error>(
            digits_value(unsigned(value@)) as usize,
        ),
{
    check_concurrent(value, parse_usize(value))
}

} // verus!
