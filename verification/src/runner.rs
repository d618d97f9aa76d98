//! Running one example: its applications are started one after another,
//! each after its own delay, and then awaited in the order they were
//! started.
//!
//! The runner decides and the caller acts. `Runner::directive` says what
//! to do next; the caller does it and reports what happened with
//! `Runner::record`. A failure to start or to await a process ends the
//! run at once; how a process exits changes nothing.

use vstd::prelude::*;
use crate::model::{delay_seconds, AppSpec, AppView, ExampleSpec};

verus! {

/// Why a run ended early. Positions count from one.
#[derive(Debug, Clone)]
pub enum RunError {
    /// The application at `index` could not be started.
    Spawn { index: usize, path: String, cause: String },
    /// The application at `index` could not be awaited.
    Wait { index: usize, path: String, cause: String },
}

/// What a `RunError` stands for.
pub ghost enum RunErrorView {
    Spawn { index: nat, path: Seq<char>, cause: Seq<char> },
    Wait { index: nat, path: Seq<char>, cause: Seq<char> },
}

impl View for RunError {
    type V = RunErrorView;

    open spec fn view(&self) -> RunErrorView {
        match self {
            RunError::Spawn { index, path, cause } => RunErrorView::Spawn {
                index: *index as nat,
                path: path@,
                cause: cause@,
            },
            RunError::Wait { index, path, cause } => RunErrorView::Wait {
                index: *index as nat,
                path: path@,
                cause: cause@,
            },
        }
    }
}

/// What the caller reports after carrying out a directive.
#[derive(Debug, Clone)]
pub enum Event {
    /// The delay has passed.
    Slept,
    /// The process was started.
    Spawned,
    /// The process could not be started.
    SpawnFailed { cause: String },
    /// The process has ended; `success` tells how.
    Exited { success: bool },
    /// The process could not be awaited.
    WaitFailed { cause: String },
}

/// What an `Event` stands for.
pub ghost enum EventView {
    Slept,
    Spawned,
    SpawnFailed { cause: Seq<char> },
    Exited { success: bool },
    WaitFailed { cause: Seq<char> },
}

impl View for Event {
    type V = EventView;

    open spec fn view(&self) -> EventView {
        match self {
            Event::Slept => EventView::Slept,
            Event::Spawned => EventView::Spawned,
            Event::SpawnFailed { cause } => EventView::SpawnFailed { cause: cause@ },
            Event::Exited { success } => EventView::Exited { success: *success },
            Event::WaitFailed { cause } => EventView::WaitFailed { cause: cause@ },
        }
    }
}

/// What the caller is to do next. Positions count from one.
#[derive(Debug)]
pub enum Directive<'a> {
    /// Wait `seconds` before the application at `index` is started.
    Sleep { index: usize, seconds: u64 },
    /// Start the application at `index`.
    Spawn { index: usize, app: &'a AppSpec },
    /// Await the process of the application at `index`.
    Wait { index: usize, path: &'a String },
    /// Every process was started and awaited: nothing is left to do.
    Finished,
    /// The run has failed: nothing is left to do.
    Failed(&'a RunError),
}

/// What a `Directive` stands for.
pub ghost enum DirectiveView {
    Sleep { index: nat, seconds: u64 },
    Spawn { index: nat, app: AppView },
    Wait { index: nat, path: Seq<char> },
    Finished,
    Failed(RunErrorView),
}

impl<'a> View for Directive<'a> {
    type V = DirectiveView;

    open spec fn view(&self) -> DirectiveView {
        match self {
            Directive::Sleep { index, seconds } => DirectiveView::Sleep {
                index: *index as nat,
                seconds: *seconds,
            },
            Directive::Spawn { index, app } => DirectiveView::Spawn {
                index: *index as nat,
                app: app@,
            },
            Directive::Wait { index, path } => DirectiveView::Wait {
                index: *index as nat,
                path: path@,
            },
            Directive::Finished => DirectiveView::Finished,
            Directive::Failed(e) => DirectiveView::Failed(e@),
        }
    }
}

/// How far a run has come. Positions count from zero.
pub ghost enum RunState {
    /// The applications before `next` are running; the one at `next` is
    /// to be started, after its delay unless it has `rested`.
    Launching { next: nat, rested: bool },
    /// All applications were started; those before `next` have ended.
    Waiting { next: nat },
    /// All applications were started and have ended.
    Finished,
    /// The run has failed.
    Failed(RunErrorView),
}

/// The state in which the run of `apps` begins.
pub open spec fn start(apps: Seq<AppView>) -> RunState {
    if apps.len() == 0 {
        RunState::Finished
    } else {
        RunState::Launching { next: 0, rested: false }
    }
}

/// A state that a run of `apps` can be in.
pub open spec fn valid(apps: Seq<AppView>, s: RunState) -> bool {
    match s {
        RunState::Launching { next, rested } => next < apps.len(),
        RunState::Waiting { next } => next < apps.len(),
        RunState::Finished => true,
        RunState::Failed(_) => true,
    }
}

/// What is to be done in state `s`.
pub open spec fn directive_of(apps: Seq<AppView>, s: RunState) -> DirectiveView {
    match s {
        RunState::Launching { next, rested } => {
            let seconds = delay_seconds(apps[next as int].delay);
            if seconds > 0 && !rested {
                DirectiveView::Sleep { index: next + 1, seconds }
            } else {
                DirectiveView::Spawn { index: next + 1, app: apps[next as int] }
            }
        },
        RunState::Waiting { next } => DirectiveView::Wait {
            index: next + 1,
            path: apps[next as int].path,
        },
        RunState::Finished => DirectiveView::Finished,
        RunState::Failed(e) => DirectiveView::Failed(e),
    }
}

/// The state after `event` was reported in state `s`. A report that does
/// not answer the directive of `s` changes nothing.
pub open spec fn step(apps: Seq<AppView>, s: RunState, event: EventView) -> RunState {
    match (directive_of(apps, s), event) {
        (DirectiveView::Sleep { index, seconds }, EventView::Slept) => RunState::Launching {
            next: (index - 1) as nat,
            rested: true,
        },
        (DirectiveView::Spawn { index, app }, EventView::Spawned) => if index < apps.len() {
            RunState::Launching { next: index, rested: false }
        } else {
            RunState::Waiting { next: 0 }
        },
        (DirectiveView::Spawn { index, app }, EventView::SpawnFailed { cause }) => RunState::Failed(
            RunErrorView::Spawn { index, path: app.path, cause },
        ),
        (DirectiveView::Wait { index, path }, EventView::Exited { success }) => if index
            < apps.len() {
            RunState::Waiting { next: index }
        } else {
            RunState::Finished
        },
        (DirectiveView::Wait { index, path }, EventView::WaitFailed { cause }) => RunState::Failed(
            RunErrorView::Wait { index, path, cause },
        ),
        _ => s,
    }
}

/// The state after each of `events` was reported in turn, from state `s`.
pub open spec fn run(apps: Seq<AppView>, s: RunState, events: Seq<EventView>) -> RunState
    decreases events.len(),
{
    if events.len() == 0 {
        s
    } else {
        step(apps, run(apps, s, events.drop_last()), events.last())
    }
}

/// The same report with the way the process ended forgotten.
pub open spec fn without_exit_status(event: EventView) -> EventView {
    match event {
        EventView::Exited { success } => EventView::Exited { success: true },
        other => other,
    }
}

/// How many of `events` report a started process.
pub open spec fn spawned_count(events: Seq<EventView>) -> nat
    decreases events.len(),
{
    if events.len() == 0 {
        0
    } else {
        spawned_count(events.drop_last()) + if events.last() is Spawned {
            1nat
        } else {
            0nat
        }
    }
}

/// A step keeps a state valid.
pub proof fn lemma_step_valid(apps: Seq<AppView>, s: RunState, event: EventView)
    requires
        valid(apps, s),
    ensures
        valid(apps, step(apps, s, event)),
{
}

/// A run keeps a state valid.
pub proof fn lemma_run_valid(apps: Seq<AppView>, s: RunState, events: Seq<EventView>)
    requires
        valid(apps, s),
    ensures
        valid(apps, run(apps, s, events)),
    decreases events.len(),
{
    if events.len() > 0 {
        lemma_run_valid(apps, s, events.drop_last());
        lemma_step_valid(apps, run(apps, s, events.drop_last()), events.last());
    }
}

/// An application whose delay is absent or zero is started without a
/// wait: the directive for it is to start it, never to sleep, and it is
/// the very next directive after the start of the application before
/// it was reported.
pub proof fn lemma_no_delay_no_sleep(apps: Seq<AppView>, next: nat, rested: bool)
    requires
        next < apps.len(),
        apps[next as int].delay is None || apps[next as int].delay == Some(0u64),
    ensures
        directive_of(apps, RunState::Launching { next, rested }) == (DirectiveView::Spawn {
            index: next + 1,
            app: apps[next as int],
        }),
        next > 0 ==> directive_of(
            apps,
            step(
                apps,
                RunState::Launching { next: (next - 1) as nat, rested: true },
                EventView::Spawned,
            ),
        ) == (DirectiveView::Spawn { index: next + 1, app: apps[next as int] }),
{
}

/// A positive delay is served once, before the application is started:
/// the directive is to sleep for that long, and after the report that the
/// time has passed it is to start the application.
pub proof fn lemma_delay_then_spawn(apps: Seq<AppView>, next: nat)
    requires
        next < apps.len(),
        delay_seconds(apps[next as int].delay) > 0,
    ensures
        directive_of(apps, RunState::Launching { next, rested: false }) == (DirectiveView::Sleep {
            index: next + 1,
            seconds: delay_seconds(apps[next as int].delay),
        }),
        directive_of(
            apps,
            step(apps, RunState::Launching { next, rested: false }, EventView::Slept),
        ) == (DirectiveView::Spawn { index: next + 1, app: apps[next as int] }),
{
}

/// A failed run stays failed, with the same error, whatever is reported
/// afterwards; a finished run stays finished.
pub proof fn lemma_end_is_final(apps: Seq<AppView>, s: RunState, events: Seq<EventView>)
    requires
        s is Failed || s is Finished,
    ensures
        run(apps, s, events) == s,
    decreases events.len(),
{
    if events.len() > 0 {
        lemma_end_is_final(apps, s, events.drop_last());
    }
}

/// If the application at position `next` cannot be started, the run
/// fails with an error that names that application, counted from one,
/// and its path; whatever is reported afterwards, the run stays failed
/// with that error, so no later application is ever asked to be
/// started.
pub proof fn lemma_spawn_failure_stops(
    apps: Seq<AppView>,
    next: nat,
    rested: bool,
    cause: Seq<char>,
    later: Seq<EventView>,
)
    requires
        next < apps.len(),
        directive_of(apps, RunState::Launching { next, rested }) is Spawn,
    ensures
        ({
            let failed = step(
                apps,
                RunState::Launching { next, rested },
                EventView::SpawnFailed { cause },
            );
            &&& failed == RunState::Failed(
                RunErrorView::Spawn { index: next + 1, path: apps[next as int].path, cause },
            )
            &&& run(apps, failed, later) == failed
            &&& directive_of(apps, run(apps, failed, later)) is Failed
        }),
{
    let failed = step(apps, RunState::Launching { next, rested }, EventView::SpawnFailed { cause });
    lemma_end_is_final(apps, failed, later);
}

/// If the process at position `next` cannot be awaited, the run fails
/// with an error that names that application, counted from one, and its
/// path; the processes after it are not awaited.
pub proof fn lemma_wait_failure_stops(
    apps: Seq<AppView>,
    next: nat,
    cause: Seq<char>,
    later: Seq<EventView>,
)
    requires
        next < apps.len(),
    ensures
        ({
            let failed = step(apps, RunState::Waiting { next }, EventView::WaitFailed { cause });
            &&& failed == RunState::Failed(
                RunErrorView::Wait { index: next + 1, path: apps[next as int].path, cause },
            )
            &&& run(apps, failed, later) == failed
            &&& directive_of(apps, run(apps, failed, later)) is Failed
        }),
{
    let failed = step(apps, RunState::Waiting { next }, EventView::WaitFailed { cause });
    lemma_end_is_final(apps, failed, later);
}

/// How a process ends changes nothing: a run in which some processes
/// end badly goes through the same states as the run in which all of
/// them end well.
pub proof fn lemma_exit_status_ignored(apps: Seq<AppView>, s: RunState, events: Seq<EventView>)
    ensures
        run(apps, s, events) == run(
            apps,
            s,
            events.map_values(|e: EventView| without_exit_status(e)),
        ),
    decreases events.len(),
{
    let plain = events.map_values(|e: EventView| without_exit_status(e));
    if events.len() > 0 {
        lemma_exit_status_ignored(apps, s, events.drop_last());
        assert(plain.drop_last() =~= events.drop_last().map_values(
            |e: EventView| without_exit_status(e),
        ));
    }
}

/// What is reported while the applications before position `upto` are
/// started and nothing goes wrong: for each of them that the delay has
/// passed, where its delay is positive, and then that it was started.
pub open spec fn launch_reports(apps: Seq<AppView>, upto: nat) -> Seq<EventView>
    decreases upto,
{
    if upto == 0 {
        Seq::empty()
    } else {
        let before = launch_reports(apps, (upto - 1) as nat);
        if delay_seconds(apps[upto - 1].delay) > 0 {
            before.push(EventView::Slept).push(EventView::Spawned)
        } else {
            before.push(EventView::Spawned)
        }
    }
}

/// `count` reports of ended processes, each with the given outcome.
pub open spec fn exit_reports(count: nat, success: spec_fn(int) -> bool) -> Seq<EventView> {
    Seq::new(count, |i: int| EventView::Exited { success: success(i) })
}

proof fn lemma_run_push(apps: Seq<AppView>, s: RunState, events: Seq<EventView>, e: EventView)
    ensures
        run(apps, s, events.push(e)) == step(apps, run(apps, s, events), e),
{
    assert(events.push(e).drop_last() == events);
}

proof fn lemma_run_concat(
    apps: Seq<AppView>,
    s: RunState,
    first: Seq<EventView>,
    second: Seq<EventView>,
)
    ensures
        run(apps, s, first + second) == run(apps, run(apps, s, first), second),
    decreases second.len(),
{
    if second.len() == 0 {
        assert(first + second == first);
    } else {
        lemma_run_concat(apps, s, first, second.drop_last());
        assert((first + second).drop_last() == first + second.drop_last());
    }
}

proof fn lemma_launch_reports(apps: Seq<AppView>, upto: nat)
    requires
        0 < upto <= apps.len(),
    ensures
        run(apps, start(apps), launch_reports(apps, upto)) == (if upto < apps.len() {
            RunState::Launching { next: upto, rested: false }
        } else {
            RunState::Waiting { next: 0 }
        }),
    decreases upto,
{
    let before = launch_reports(apps, (upto - 1) as nat);
    let at = RunState::Launching { next: (upto - 1) as nat, rested: false };
    if upto > 1 {
        lemma_launch_reports(apps, (upto - 1) as nat);
    }
    assert(run(apps, start(apps), before) == at);
    if delay_seconds(apps[upto - 1].delay) > 0 {
        lemma_run_push(apps, start(apps), before, EventView::Slept);
        lemma_run_push(apps, start(apps), before.push(EventView::Slept), EventView::Spawned);
    } else {
        lemma_run_push(apps, start(apps), before, EventView::Spawned);
    }
}

proof fn lemma_exit_reports(apps: Seq<AppView>, count: nat, success: spec_fn(int) -> bool)
    requires
        0 < count <= apps.len(),
    ensures
        run(apps, RunState::Waiting { next: 0 }, exit_reports(count, success)) == (if count
            < apps.len() {
            RunState::Waiting { next: count }
        } else {
            RunState::Finished
        }),
    decreases count,
{
    let s = RunState::Waiting { next: 0 };
    let before = exit_reports((count - 1) as nat, success);
    if count > 1 {
        lemma_exit_reports(apps, (count - 1) as nat, success);
    }
    assert(exit_reports(count, success) =~= before.push(
        EventView::Exited { success: success(count - 1) },
    ));
    lemma_run_push(apps, s, before, EventView::Exited { success: success(count - 1) });
}

/// Where every delay passes, every process starts and every process
/// ends, well or badly, the run finishes: each application is started
/// once, in order, and then each is awaited once, in the same order.
pub proof fn lemma_full_run_finishes(apps: Seq<AppView>, success: spec_fn(int) -> bool)
    ensures
        run(
            apps,
            start(apps),
            launch_reports(apps, apps.len()) + exit_reports(apps.len(), success),
        ) == RunState::Finished,
        spawned_count(launch_reports(apps, apps.len())) == apps.len(),
{
    let launches = launch_reports(apps, apps.len());
    let exits = exit_reports(apps.len(), success);
    lemma_spawned_count(apps, apps.len());
    if apps.len() == 0 {
        assert(launches + exits =~= Seq::<EventView>::empty());
    } else {
        lemma_launch_reports(apps, apps.len());
        lemma_exit_reports(apps, apps.len(), success);
        lemma_run_concat(apps, start(apps), launches, exits);
    }
}

proof fn lemma_spawned_count(apps: Seq<AppView>, upto: nat)
    requires
        upto <= apps.len(),
    ensures
        spawned_count(launch_reports(apps, upto)) == upto,
    decreases upto,
{
    if upto > 0 {
        lemma_spawned_count(apps, (upto - 1) as nat);
        let before = launch_reports(apps, (upto - 1) as nat);
        if delay_seconds(apps[upto - 1].delay) > 0 {
            let mid = before.push(EventView::Slept);
            assert(mid.drop_last() == before);
            assert(spawned_count(mid) == spawned_count(before));
            assert(mid.push(EventView::Spawned).drop_last() == mid);
            assert(spawned_count(mid.push(EventView::Spawned)) == spawned_count(mid) + 1);
        } else {
            assert(before.push(EventView::Spawned).drop_last() == before);
            assert(spawned_count(before.push(EventView::Spawned)) == spawned_count(before) + 1);
        }
    }
}

/// Where the run stands, as the runner keeps it. Positions count from
/// zero.
enum Stage {
    Launching { next: usize, rested: bool },
    Waiting { next: usize },
    Finished,
    Failed(RunError),
}

/// The run of one example.
pub struct Runner<'a> {
    example: &'a ExampleSpec,
    stage: Stage,
}

impl<'a> Runner<'a> {
    /// The applications of the example that is run.
    pub closed spec fn apps(&self) -> Seq<AppView> {
        self.example@.apps
    }

    /// How far the run has come.
    pub closed spec fn state(&self) -> RunState {
        match self.stage {
            Stage::Launching { next, rested } => RunState::Launching { next: next as nat, rested },
            Stage::Waiting { next } => RunState::Waiting { next: next as nat },
            Stage::Finished => RunState::Finished,
            Stage::Failed(e) => RunState::Failed(e@),
        }
    }

    #[verifier::type_invariant]
    spec fn well_formed(&self) -> bool {
        valid(self.example@.apps, self.state())
    }

    /// A run of `example` in which nothing has been started yet.
    pub fn new(example: &'a ExampleSpec) -> (r: Self)
        ensures
            r.apps() == example@.apps,
            r.state() == start(example@.apps),
    {
        let stage = if example.apps.len() == 0 {
            Stage::Finished
        } else {
            Stage::Launching { next: 0, rested: false }
        };
        Runner { example, stage }
    }

    /// What the caller is to do next.
    pub fn directive(&self) -> (d: Directive<'_>)
        ensures
            d@ == directive_of(self.apps(), self.state()),
            valid(self.apps(), self.state()),
    {
        proof {
            use_type_invariant(self);
            assert(self.example@.apps.len() == self.example.apps.len());
        }
        match &self.stage {
            Stage::Launching { next, rested } => {
                let app = &self.example.apps[*next];
                let seconds = app.delay_secs();
                if seconds > 0 && !*rested {
                    Directive::Sleep { index: *next + 1, seconds }
                } else {
                    Directive::Spawn { index: *next + 1, app }
                }
            },
            Stage::Waiting { next } => Directive::Wait {
                index: *next + 1,
                path: &self.example.apps[*next].path,
            },
            Stage::Finished => Directive::Finished,
            Stage::Failed(e) => Directive::Failed(e),
        }
    }

    /// Takes note of what happened when the caller carried out the
    /// directive. A report that does not answer the directive changes
    /// nothing.
    pub fn record(&mut self, event: Event)
        ensures
            final(self).apps() == old(self).apps(),
            final(self).state() == step(old(self).apps(), old(self).state(), event@),
    {
        proof {
            use_type_invariant(&*self);
        }
        let count = self.example.apps.len();
        let mut moved: Option<Stage> = None;
        match &self.stage {
            Stage::Launching { next, rested } => {
                let sleeping = self.example.apps[*next].delay_secs() > 0 && !*rested;
                match event {
                    Event::Slept => {
                        if sleeping {
                            moved = Some(Stage::Launching { next: *next, rested: true });
                        }
                    },
                    Event::Spawned => {
                        if !sleeping {
                            if *next + 1 < count {
                                moved = Some(Stage::Launching { next: *next + 1, rested: false });
                            } else {
                                moved = Some(Stage::Waiting { next: 0 });
                            }
                        }
                    },
                    Event::SpawnFailed { cause } => {
                        if !sleeping {
                            moved = Some(
                                Stage::Failed(
                                    RunError::Spawn {
                                        index: *next + 1,
                                        path: self.example.apps[*next].path.clone(),
                                        cause,
                                    },
                                ),
                            );
                        }
                    },
                    _ => {},
                }
            },
            Stage::Waiting { next } => {
                match event {
                    Event::Exited { success } => {
                        if *next + 1 < count {
                            moved = Some(Stage::Waiting { next: *next + 1 });
                        } else {
                            moved = Some(Stage::Finished);
                        }
                    },
                    Event::WaitFailed { cause } => {
                        moved = Some(
                            Stage::Failed(
                                RunError::Wait {
                                    index: *next + 1,
                                    path: self.example.apps[*next].path.clone(),
                                    cause,
                                },
                            ),
                        );
                    },
                    _ => {},
                }
            },
            _ => {},
        }
        if let Some(stage) = moved {
            self.stage = stage;
        }
    }

    /// How the run ended: `None` while something is left to do.
    pub fn outcome(&self) -> (r: Option<Result<(), RunError>>)
        ensures
            match r {
                None => self.state() is Launching || self.state() is Waiting,
                Some(Ok(())) => self.state() is Finished,
                Some(Err(e)) => self.state() == RunState::Failed(e@),
            },
    {
        match &self.stage {
            Stage::Finished => Some(Ok(())),
            Stage::Failed(e) => Some(Err(copy_error(e))),
            _ => None,
        }
    }
}

/// A copy of a run error.
pub fn copy_error(e: &RunError) -> (r: RunError)
    ensures
        r@ == e@,
{
    match e {
        RunError::Spawn { index, path, cause } => RunError::Spawn {
            index: *index,
            path: path.clone(),
            cause: cause.clone(),
        },
        RunError::Wait { index, path, cause } => RunError::Wait {
            index: *index,
            path: path.clone(),
            cause: cause.clone(),
        },
    }
}

} // verus!
