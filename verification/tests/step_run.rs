use vzctl::step_run::{run_begin, run_next, RunAction, RunEvent, RunState, StepMark};

fn checkpoint(step: &str, mark: StepMark, error: Option<&str>) -> RunAction {
    RunAction::Checkpoint { step: step.to_string(), mark, error: error.map(|e| e.to_string()) }
}

#[test]
fn smooth_run_checkpoints_every_step_in_order() {
    let steps = ["validate", "acquire_lease"];
    let (st, action) = run_begin(&steps);
    assert_eq!(st, RunState::Marking(0));
    assert_eq!(action, checkpoint("validate", StepMark::Running, None));
    let (st, action) = run_next(&steps, st, RunEvent::Recorded);
    assert_eq!(action, RunAction::Execute("validate".to_string()));
    let (st, action) = run_next(&steps, st, RunEvent::Succeeded);
    assert_eq!(action, checkpoint("validate", StepMark::Completed, None));
    let (st, action) = run_next(&steps, st, RunEvent::Recorded);
    assert_eq!(st, RunState::Marking(1));
    assert_eq!(action, checkpoint("acquire_lease", StepMark::Running, None));
    let (st, _) = run_next(&steps, st, RunEvent::Recorded);
    let (st, _) = run_next(&steps, st, RunEvent::Succeeded);
    let (st, action) = run_next(&steps, st, RunEvent::Recorded);
    assert_eq!(st, RunState::Finished);
    assert_eq!(action, RunAction::Finish);
    assert_eq!(StepMark::Running.as_str(), "running");
    assert_eq!(StepMark::Failed.as_str(), "failed");
    assert_eq!(StepMark::Completed.as_str(), "completed");
}

#[test]
fn failed_step_is_recorded_and_stops_the_run() {
    let steps = ["validate", "acquire_lease"];
    let (st, _) = run_begin(&steps);
    let (st, _) = run_next(&steps, st, RunEvent::Recorded);
    let (st, action) = run_next(&steps, st, RunEvent::Failed("bad config".to_string()));
    assert_eq!(action, checkpoint("validate", StepMark::Failed, Some("bad config")));
    let (st, action) = run_next(&steps, st, RunEvent::Refused("socket gone".to_string()));
    assert_eq!(st, RunState::Stopped);
    assert_eq!(action, RunAction::Stop("bad config".to_string()));
    let (st, action) = run_next(&steps, st, RunEvent::Recorded);
    assert_eq!(st, RunState::Stopped);
    assert_eq!(action, RunAction::Ignore);
}

#[test]
fn refused_checkpoint_stops_the_run_and_empty_runs_finish() {
    let steps = ["release_lease"];
    let (st, _) = run_begin(&steps);
    let (st, action) = run_next(&steps, st, RunEvent::Refused("no supervisor".to_string()));
    assert_eq!(st, RunState::Stopped);
    assert_eq!(action, RunAction::Stop("no supervisor".to_string()));
    let (st, action) = run_begin(&[]);
    assert_eq!(st, RunState::Finished);
    assert_eq!(action, RunAction::Finish);
    let (st, action) = run_next(&steps, RunState::Marking(0), RunEvent::Succeeded);
    assert_eq!(st, RunState::Marking(0));
    assert_eq!(action, RunAction::Ignore);
}
