//! One invocation from start to end: where descriptors are looked for,
//! how examples are selected, and the order in which the selected
//! examples are run.
//!
//! Examples run one after another in the order of the selection. The
//! first one that fails ends the session: those after it are not run.

use vstd::prelude::*;
use crate::model::ExampleSpec;
use crate::runner::{RunError, RunErrorView};
use crate::select::as_ints;

verus! {

/// The directory under which descriptors are looked for when none is
/// given.
pub open spec fn default_root() -> Seq<char> {
    "/showcases"@
}

/// The directory under which descriptors are looked for: the one given,
/// else the default one.
pub fn resolve_root(given: Option<String>) -> (root: String)
    ensures
        root@ == (match given {
            Some(path) => path@,
            None => default_root(),
        }),
{
    match given {
        Some(path) => path,
        None => "/showcases".to_owned(),
    }
}

/// How examples are selected.
#[derive(Debug, Clone)]
pub enum Mode {
    /// By this filter expression, without asking anyone.
    Filter(String),
    /// By asking the operator.
    Interactive,
}

/// How examples are selected: by the filter where one is given, else by
/// asking the operator.
pub fn selection_mode(filter: Option<String>) -> (mode: Mode)
    ensures
        match filter {
            Some(f) => (mode matches Mode::Filter(g) && g@ == f@),
            None => mode is Interactive,
        },
{
    match filter {
        Some(f) => Mode::Filter(f),
        None => Mode::Interactive,
    }
}

/// The scan found no example under `root`.
#[derive(Debug, Clone)]
pub struct NothingFound {
    pub root: String,
}

/// Insists that the scan under `root` found something: fails exactly if
/// `examples` is empty.
pub fn require_found(examples: &Vec<ExampleSpec>, root: &str) -> (r: Result<(), NothingFound>)
    ensures
        match r {
            Ok(()) => examples.len() > 0,
            Err(e) => examples.len() == 0 && e.root@ == root@,
        },
{
    if examples.len() == 0 {
        Err(NothingFound { root: root.to_owned() })
    } else {
        Ok(())
    }
}

/// How far a session has come.
pub ghost struct SessionState {
    /// The positions of the selected examples, in the order they run.
    pub selected: Seq<int>,
    /// How many of them have run to their end.
    pub done: nat,
    /// Why the session failed, if it did.
    pub failure: Option<RunErrorView>,
}

/// The state in which a session over `selected` begins.
pub open spec fn opening(selected: Seq<int>) -> SessionState {
    SessionState { selected, done: 0, failure: None }
}

/// The example to run next: none once an example has failed or all
/// have run.
pub open spec fn next_of(s: SessionState) -> Option<int> {
    if s.failure is Some || s.done >= s.selected.len() {
        None
    } else {
        Some(s.selected[s.done as int])
    }
}

/// The state after the example that was to run next ended with
/// `outcome`. Where no example was to run, nothing changes.
pub open spec fn close_of(s: SessionState, outcome: Result<(), RunErrorView>) -> SessionState {
    if next_of(s) is None {
        s
    } else {
        match outcome {
            Ok(()) => SessionState { done: s.done + 1, ..s },
            Err(e) => SessionState { failure: Some(e), ..s },
        }
    }
}

/// The state after the examples ended with `outcomes`, one after
/// another.
pub open spec fn session(s: SessionState, outcomes: Seq<Result<(), RunErrorView>>) -> SessionState
    decreases outcomes.len(),
{
    if outcomes.len() == 0 {
        s
    } else {
        close_of(session(s, outcomes.drop_last()), outcomes.last())
    }
}

/// Once an example has failed no further example is run, whatever is
/// reported afterwards, and the session keeps that first failure.
pub proof fn lemma_first_failure_ends_session(
    s: SessionState,
    e: RunErrorView,
    later: Seq<Result<(), RunErrorView>>,
)
    requires
        next_of(s) is Some,
    ensures
        session(close_of(s, Err(e)), later) == close_of(s, Err(e)),
        next_of(session(close_of(s, Err(e)), later)) is None,
        session(close_of(s, Err(e)), later).failure == Some(e),
    decreases later.len(),
{
    if later.len() > 0 {
        lemma_first_failure_ends_session(s, e, later.drop_last());
    }
}

/// While every example succeeds, the examples run in the order of the
/// selection: after `count` successes the next one is the one at
/// position `count` of the selection, and after as many successes as
/// examples were selected none is left.
pub proof fn lemma_runs_in_selection_order(selected: Seq<int>, count: nat)
    requires
        count <= selected.len(),
    ensures
        session(opening(selected), Seq::new(count, |i: int| Ok::<(), RunErrorView>(()))) == (
        SessionState { selected, done: count, failure: None }),
        count < selected.len() ==> next_of(
            session(opening(selected), Seq::new(count, |i: int| Ok::<(), RunErrorView>(()))),
        ) == Some(selected[count as int]),
        count == selected.len() ==> next_of(
            session(opening(selected), Seq::new(count, |i: int| Ok::<(), RunErrorView>(()))),
        ) is None,
    decreases count,
{
    let all = Seq::new(count, |i: int| Ok::<(), RunErrorView>(()));
    if count > 0 {
        lemma_runs_in_selection_order(selected, (count - 1) as nat);
        assert(all.drop_last() =~= Seq::new((count - 1) as nat, |i: int| Ok::<(), RunErrorView>(())));
    }
}

/// The run of the selected examples, one after another.
pub struct Session {
    selected: Vec<usize>,
    done: usize,
    failure: Option<RunError>,
}

impl Session {
    /// How far the session has come.
    pub closed spec fn state(&self) -> SessionState {
        SessionState {
            selected: as_ints(self.selected@),
            done: self.done as nat,
            failure: match self.failure {
                Some(e) => Some(e@),
                None => None,
            },
        }
    }

    /// A session over the examples at the positions `selected`, none of
    /// which has run.
    pub fn new(selected: Vec<usize>) -> (r: Session)
        ensures
            r.state() == opening(as_ints(selected@)),
    {
        Session { selected, done: 0, failure: None }
    }

    /// The position of the example to run next, if any is left and none
    /// has failed.
    pub fn next_example(&self) -> (r: Option<usize>)
        ensures
            match r {
                Some(position) => next_of(self.state()) == Some(position as int),
                None => next_of(self.state()) is None,
            },
    {
        if self.failure.is_some() || self.done >= self.selected.len() {
            None
        } else {
            Some(self.selected[self.done])
        }
    }

    /// Takes note of how the example that was to run next has ended.
    pub fn close_example(&mut self, outcome: Result<(), RunError>)
        ensures
            final(self).state() == close_of(
                old(self).state(),
                match outcome {
                    Ok(()) => Ok(()),
                    Err(e) => Err(e@),
                },
            ),
    {
        if self.failure.is_some() || self.done >= self.selected.len() {
            return ;
        }
        match outcome {
            Ok(()) => {
                self.done = self.done + 1;
            },
            Err(e) => {
                self.failure = Some(e);
            },
        }
    }

    /// How the session ended: `None` while an example is left to run.
    pub fn verdict(self) -> (r: Option<Result<(), RunError>>)
        ensures
            match r {
                None => next_of(self.state()) is Some,
                Some(Ok(())) => self.state().failure is None && self.state().done
                    >= self.state().selected.len(),
                Some(Err(e)) => self.state().failure == Some(e@),
            },
    {
        match self.failure {
            Some(e) => Some(Err(e)),
            None => if self.done >= self.selected.len() {
                Some(Ok(()))
            } else {
                None
            },
        }
    }
}

} // verus!
