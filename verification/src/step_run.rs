//! The step loop of an apply or down run: each step is recorded as running
//! in the journal, executed, and recorded as completed or failed; the run
//! stops at the first failure. The journal calls and the steps themselves are
//! performed by the caller, which hands back what came of each.
use crate::reconciler::str_views;
use crate::text::owned;
use vstd::prelude::*;

verus! {

/// The status a journal checkpoint records for a step.
#[derive(Clone, Copy, Debug, PartialEq, Eq, Structural)]
pub enum StepMark {
    Running,
    Failed,
    Completed,
}

impl StepMark {
    /// The word the journal stores.
    pub fn as_str(&self) -> (r: &'static str)
        ensures
            r@ == mark_word(*self),
    {
        match self {
            StepMark::Running => "running",
            StepMark::Failed => "failed",
            StepMark::Completed => "completed",
        }
    }
}

pub open spec fn mark_word(m: StepMark) -> Seq<char> {
    match m {
        StepMark::Running => "running"@,
        StepMark::Failed => "failed"@,
        StepMark::Completed => "completed"@,
    }
}

/// Where the loop stands: waiting for the running checkpoint of step `i`,
/// for step `i` itself, for its completed checkpoint, or for the failed
/// checkpoint of a step that failed with a message; or done.
#[derive(Debug, PartialEq, Eq)]
pub enum RunState {
    Marking(usize),
    Executing(usize),
    Completing(usize),
    RecordingFailure(String),
    Finished,
    Stopped,
}

/// What came of the last action: a checkpoint was recorded or refused (with
/// the error), a step succeeded or failed (with the error).
#[derive(Debug)]
pub enum RunEvent {
    Recorded,
    Refused(String),
    Succeeded,
    Failed(String),
}

/// What the caller does next: record a checkpoint, execute a step, finish the
/// run, end it with an error, or nothing (an event that does not fit the state).
#[derive(Debug, PartialEq, Eq)]
pub enum RunAction {
    Checkpoint { step: String, mark: StepMark, error: Option<String> },
    Execute(String),
    Finish,
    Stop(String),
    Ignore,
}

pub enum RunStateView {
    Marking(nat),
    Executing(nat),
    Completing(nat),
    RecordingFailure(Seq<char>),
    Finished,
    Stopped,
}

pub enum RunEventView {
    Recorded,
    Refused(Seq<char>),
    Succeeded,
    Failed(Seq<char>),
}

pub enum RunActionView {
    Checkpoint { step: Seq<char>, mark: StepMark, error: Option<Seq<char>> },
    Execute(Seq<char>),
    Finish,
    Stop(Seq<char>),
    Ignore,
}

impl View for RunState {
    type V = RunStateView;

    open spec fn view(&self) -> RunStateView {
        match self {
            RunState::Marking(i) => RunStateView::Marking(*i as nat),
            RunState::Executing(i) => RunStateView::Executing(*i as nat),
            RunState::Completing(i) => RunStateView::Completing(*i as nat),
            RunState::RecordingFailure(m) => RunStateView::RecordingFailure(m@),
            RunState::Finished => RunStateView::Finished,
            RunState::Stopped => RunStateView::Stopped,
        }
    }
}

impl View for RunEvent {
    type V = RunEventView;

    open spec fn view(&self) -> RunEventView {
        match self {
            RunEvent::Recorded => RunEventView::Recorded,
            RunEvent::Refused(m) => RunEventView::Refused(m@),
            RunEvent::Succeeded => RunEventView::Succeeded,
            RunEvent::Failed(m) => RunEventView::Failed(m@),
        }
    }
}

impl View for RunAction {
    type V = RunActionView;

    open spec fn view(&self) -> RunActionView {
        match self {
            RunAction::Checkpoint { step, mark, error } => RunActionView::Checkpoint {
                step: step@,
                mark: *mark,
                error: match error {
                    Some(e) => Some(e@),
                    None => None,
                },
            },
            RunAction::Execute(s) => RunActionView::Execute(s@),
            RunAction::Finish => RunActionView::Finish,
            RunAction::Stop(m) => RunActionView::Stop(m@),
            RunAction::Ignore => RunActionView::Ignore,
        }
    }
}

/// The running checkpoint of step `i`, or the end of the run once every step
/// is through.
pub open spec fn enter_step(steps: Seq<Seq<char>>, i: nat) -> (RunStateView, RunActionView) {
    if i < steps.len() {
        (
            RunStateView::Marking(i),
            RunActionView::Checkpoint { step: steps[i as int], mark: StepMark::Running, error: None },
        )
    } else {
        (RunStateView::Finished, RunActionView::Finish)
    }
}

/// How the loop starts.
pub open spec fn run_begin_spec(steps: Seq<Seq<char>>) -> (RunStateView, RunActionView) {
    enter_step(steps, 0)
}

/// The state and action after `ev` in state `st`. A refused running or
/// completed checkpoint ends the run with its error; a failed step is recorded
/// as failed and then ends the run with the step's error, whatever came of
/// that checkpoint.
pub open spec fn run_next_spec(steps: Seq<Seq<char>>, st: RunStateView, ev: RunEventView) -> (
    RunStateView,
    RunActionView,
) {
    let unchanged = (st, RunActionView::Ignore);
    match st {
        RunStateView::Marking(i) => match ev {
            RunEventView::Recorded => if i < steps.len() {
                (RunStateView::Executing(i), RunActionView::Execute(steps[i as int]))
            } else {
                unchanged
            },
            RunEventView::Refused(m) => (RunStateView::Stopped, RunActionView::Stop(m)),
            _ => unchanged,
        },
        RunStateView::Executing(i) => match ev {
            RunEventView::Succeeded => if i < steps.len() {
                (
                    RunStateView::Completing(i),
                    RunActionView::Checkpoint { step: steps[i as int], mark: StepMark::Completed, error: None },
                )
            } else {
                unchanged
            },
            RunEventView::Failed(m) => if i < steps.len() {
                (
                    RunStateView::RecordingFailure(m),
                    RunActionView::Checkpoint { step: steps[i as int], mark: StepMark::Failed, error: Some(m) },
                )
            } else {
                unchanged
            },
            _ => unchanged,
        },
        RunStateView::Completing(i) => match ev {
            RunEventView::Recorded => enter_step(steps, i + 1),
            RunEventView::Refused(m) => (RunStateView::Stopped, RunActionView::Stop(m)),
            _ => unchanged,
        },
        RunStateView::RecordingFailure(m) => match ev {
            RunEventView::Recorded | RunEventView::Refused(_) => (RunStateView::Stopped, RunActionView::Stop(m)),
            _ => unchanged,
        },
        _ => unchanged,
    }
}

fn enter_step_exec(steps: &[&str], i: usize) -> (r: (RunState, RunAction))
    ensures
        (r.0@, r.1@) == enter_step(str_views(steps@), i as nat),
{
    if i < steps.len() {
        (RunState::Marking(i), RunAction::Checkpoint { step: owned(steps[i]), mark: StepMark::Running, error: None })
    } else {
        (RunState::Finished, RunAction::Finish)
    }
}

/// The first state and action of a run over `steps`.
pub fn run_begin(steps: &[&str]) -> (r: (RunState, RunAction))
    ensures
        (r.0@, r.1@) == run_begin_spec(str_views(steps@)),
{
    enter_step_exec(steps, 0)
}

/// The next state and action of a run over `steps` in state `st`, after `ev`.
pub fn run_next(steps: &[&str], st: RunState, ev: RunEvent) -> (r: (RunState, RunAction))
    ensures
        (r.0@, r.1@) == run_next_spec(str_views(steps@), st@, ev@),
{
    match st {
        RunState::Marking(i) => match ev {
            RunEvent::Recorded => if i < steps.len() {
                (RunState::Executing(i), RunAction::Execute(owned(steps[i])))
            } else {
                (RunState::Marking(i), RunAction::Ignore)
            },
            RunEvent::Refused(m) => (RunState::Stopped, RunAction::Stop(m)),
            _ => (RunState::Marking(i), RunAction::Ignore),
        },
        RunState::Executing(i) => match ev {
            RunEvent::Succeeded => if i < steps.len() {
                (
                    RunState::Completing(i),
                    RunAction::Checkpoint { step: owned(steps[i]), mark: StepMark::Completed, error: None },
                )
            } else {
                (RunState::Executing(i), RunAction::Ignore)
            },
            RunEvent::Failed(m) => if i < steps.len() {
                let error = owned(m.as_str());
                (
                    RunState::RecordingFailure(m),
                    RunAction::Checkpoint { step: owned(steps[i]), mark: StepMark::Failed, error: Some(error) },
                )
            } else {
                (RunState::Executing(i), RunAction::Ignore)
            },
            _ => (RunState::Executing(i), RunAction::Ignore),
        },
        RunState::Completing(i) => match ev {
            RunEvent::Recorded => if i < steps.len() {
                enter_step_exec(steps, i + 1)
            } else {
                (RunState::Finished, RunAction::Finish)
            },
            RunEvent::Refused(m) => (RunState::Stopped, RunAction::Stop(m)),
            _ => (RunState::Completing(i), RunAction::Ignore),
        },
        RunState::RecordingFailure(m) => match ev {
            RunEvent::Recorded | RunEvent::Refused(_) => (RunState::Stopped, RunAction::Stop(m)),
            _ => (RunState::RecordingFailure(m), RunAction::Ignore),
        },
        RunState::Finished => (RunState::Finished, RunAction::Ignore),
        RunState::Stopped => (RunState::Stopped, RunAction::Ignore),
    }
}

/// The states and actions of the loop fed the events `evs` from state `st`:
/// the last state, and the action after each event.
pub open spec fn drive(steps: Seq<Seq<char>>, st: RunStateView, evs: Seq<RunEventView>) -> (
    RunStateView,
    Seq<RunActionView>,
)
    decreases evs.len(),
{
    if evs.len() == 0 {
        (st, Seq::empty())
    } else {
        let (next, action) = run_next_spec(steps, st, evs[0]);
        let (last, rest) = drive(steps, next, evs.drop_first());
        (last, seq![action] + rest)
    }
}

/// The events of a run in which every checkpoint is recorded and every step
/// from `i` on succeeds.
pub open spec fn smooth_events(n: nat, i: nat) -> Seq<RunEventView>
    decreases n - i,
{
    if i >= n {
        Seq::empty()
    } else {
        seq![RunEventView::Recorded, RunEventView::Succeeded, RunEventView::Recorded] + smooth_events(n, i + 1)
    }
}

/// The actions such a run takes from step `i` on: each step is executed, then
/// recorded as completed, then the next one is recorded as running, or the
/// run finishes.
pub open spec fn smooth_actions(steps: Seq<Seq<char>>, i: nat) -> Seq<RunActionView>
    decreases steps.len() - i,
{
    if i >= steps.len() {
        Seq::empty()
    } else {
        seq![
            RunActionView::Execute(steps[i as int]),
            RunActionView::Checkpoint { step: steps[i as int], mark: StepMark::Completed, error: None },
            enter_step(steps, i + 1).1,
        ] + smooth_actions(steps, i + 1)
    }
}

proof fn lemma_drive_three(
    steps: Seq<Seq<char>>,
    st: RunStateView,
    a: RunEventView,
    b: RunEventView,
    c: RunEventView,
    rest: Seq<RunEventView>,
)
    ensures
        drive(steps, st, seq![a, b, c] + rest) == {
            let (s1, x1) = run_next_spec(steps, st, a);
            let (s2, x2) = run_next_spec(steps, s1, b);
            let (s3, x3) = run_next_spec(steps, s2, c);
            let (last, tail) = drive(steps, s3, rest);
            (last, seq![x1, x2, x3] + tail)
        },
{
    let evs = seq![a, b, c] + rest;
    let e2 = seq![b, c] + rest;
    let e3 = seq![c] + rest;
    assert(evs[0] == a);
    assert(evs.drop_first() =~= e2);
    assert(e2[0] == b);
    assert(e2.drop_first() =~= e3);
    assert(e3[0] == c);
    assert(e3.drop_first() =~= rest);
    let (s1, x1) = run_next_spec(steps, st, a);
    let (s2, x2) = run_next_spec(steps, s1, b);
    let (s3, x3) = run_next_spec(steps, s2, c);
    let (last, tail) = drive(steps, s3, rest);
    assert(drive(steps, s2, e3) == (last, seq![x3] + tail));
    assert(drive(steps, s1, e2) == (last, seq![x2] + (seq![x3] + tail)));
    assert(drive(steps, st, evs) == (last, seq![x1] + (seq![x2] + (seq![x3] + tail))));
    assert(seq![x1] + (seq![x2] + (seq![x3] + tail)) =~= seq![x1, x2, x3] + tail);
}

proof fn lemma_smooth_from(steps: Seq<Seq<char>>, i: nat)
    requires
        i <= steps.len(),
    ensures
        drive(steps, enter_step(steps, i).0, smooth_events(steps.len(), i)) == (
            RunStateView::Finished,
            smooth_actions(steps, i),
        ),
    decreases steps.len() - i,
{
    if i < steps.len() {
        lemma_smooth_from(steps, i + 1);
        lemma_drive_three(
            steps,
            RunStateView::Marking(i),
            RunEventView::Recorded,
            RunEventView::Succeeded,
            RunEventView::Recorded,
            smooth_events(steps.len(), i + 1),
        );
    }
}

/// When every checkpoint is recorded and every step succeeds, the run records
/// each step as running, executes it and records it as completed, one step
/// after the other in order, and then finishes.
pub proof fn law_smooth_run_executes_every_step(steps: Seq<Seq<char>>)
    ensures
        drive(steps, run_begin_spec(steps).0, smooth_events(steps.len(), 0)) == (
            RunStateView::Finished,
            smooth_actions(steps, 0),
        ),
        run_begin_spec(steps).1 == enter_step(steps, 0).1,
{
    lemma_smooth_from(steps, 0);
}

proof fn lemma_stopped_stays(steps: Seq<Seq<char>>, evs: Seq<RunEventView>)
    ensures
        drive(steps, RunStateView::Stopped, evs).0 == RunStateView::Stopped,
        forall|k: int|
            0 <= k < evs.len() ==> #[trigger] drive(steps, RunStateView::Stopped, evs).1[k] == RunActionView::Ignore,
        drive(steps, RunStateView::Stopped, evs).1.len() == evs.len(),
    decreases evs.len(),
{
    if evs.len() > 0 {
        lemma_stopped_stays(steps, evs.drop_first());
        let tail = drive(steps, RunStateView::Stopped, evs.drop_first()).1;
        assert forall|k: int| 0 <= k < evs.len() implies #[trigger] (seq![RunActionView::Ignore] + tail)[k]
            == RunActionView::Ignore by {
            if k > 0 {
                assert((seq![RunActionView::Ignore] + tail)[k] == tail[k - 1]);
            }
        }
    }
}

/// A step that fails is recorded as failed, and then, whatever came of that
/// checkpoint, the run stops with the step's error: no step is executed and no
/// checkpoint is recorded afterwards.
pub proof fn law_failure_stops_the_run(
    steps: Seq<Seq<char>>,
    i: nat,
    m: Seq<char>,
    outcome: RunEventView,
    later: Seq<RunEventView>,
)
    requires
        i < steps.len(),
        outcome is Recorded || outcome is Refused,
    ensures
        ({
            let (last, actions) = drive(steps, RunStateView::Executing(i), seq![RunEventView::Failed(m), outcome] + later);
            &&& last == RunStateView::Stopped
            &&& actions.len() == later.len() + 2
            &&& actions[0] == RunActionView::Checkpoint { step: steps[i as int], mark: StepMark::Failed, error: Some(m) }
            &&& actions[1] == RunActionView::Stop(m)
            &&& forall|k: int| 2 <= k < actions.len() ==> #[trigger] actions[k] == RunActionView::Ignore
        }),
{
    let evs = seq![RunEventView::Failed(m), outcome] + later;
    let e2 = seq![outcome] + later;
    assert(evs[0] == RunEventView::Failed(m));
    assert(evs.drop_first() =~= e2);
    assert(e2[0] == outcome);
    assert(e2.drop_first() =~= later);
    lemma_stopped_stays(steps, later);
    let tail = drive(steps, RunStateView::Stopped, later).1;
    let failed = RunStateView::RecordingFailure(m);
    assert(drive(steps, failed, e2) == (RunStateView::Stopped, seq![RunActionView::Stop(m)] + tail));
    let first = RunActionView::Checkpoint { step: steps[i as int], mark: StepMark::Failed, error: Some(m) };
    assert(drive(steps, RunStateView::Executing(i), evs) == (
        RunStateView::Stopped,
        seq![first] + (seq![RunActionView::Stop(m)] + tail),
    ));
    let actions = seq![first] + (seq![RunActionView::Stop(m)] + tail);
    assert forall|k: int| 2 <= k < actions.len() implies #[trigger] actions[k] == RunActionView::Ignore by {
        assert(actions[k] == tail[k - 2]);
    }
}

} // verus!
