use std::time::Duration;
use vzctl::progress::{
    cloud_init_stage_progress, default_job_specs, format_clock, format_elapsed, job_path,
    parse_progress_flag, plain_message, resolve_progress_mode_for, subprocess_line, vm_job_specs, vm_state_line,
    vm_state_message,
    JobSpec, JobStatus, ProgressMessage, ProgressMode, ProgressReporter, ProgressState,
    MAX_LOG_LINES,
};

#[test]
fn parse_progress_flag_accepts_aliases() {
    assert!(parse_progress_flag(None).is_err());
    assert_eq!(parse_progress_flag(Some("ui")).unwrap(), ProgressMode::Ui);
    assert_eq!(parse_progress_flag(Some("tui")).unwrap(), ProgressMode::Ui);
    assert_eq!(parse_progress_flag(Some("off")).unwrap(), ProgressMode::Off);
    assert!(parse_progress_flag(Some("fancy")).is_err());
}

#[test]
fn json_defaults_to_off_and_human_pipe_to_plain() {
    assert_eq!(
        resolve_progress_mode_for(None, false, true, true),
        ProgressMode::Off
    );
    assert_eq!(
        resolve_progress_mode_for(None, true, true, false),
        ProgressMode::Plain
    );
    assert_eq!(
        resolve_progress_mode_for(None, true, true, true),
        ProgressMode::Ui
    );
    assert_eq!(
        resolve_progress_mode_for(None, true, false, true),
        ProgressMode::Plain
    );
}

#[test]
fn percentages_are_weighted_monotone_and_skips_complete_work() {
    let specs = vec![
        JobSpec::leaf("a", "group", "A", 1),
        JobSpec::leaf("b", "group", "B", 3),
    ];
    let mut state = ProgressState::new(specs);
    assert_eq!(state.percent(), 0);
    state.apply(ProgressMessage::JobDone {
        id: "a".into(),
        elapsed: Duration::ZERO,
    });
    assert_eq!(state.percent(), 25);
    state.apply(ProgressMessage::JobProgress {
        id: "b".into(),
        completed: 60,
        total: 100,
        detail: None,
    });
    assert_eq!(state.percent(), 70);
    state.apply(ProgressMessage::JobSkipped {
        id: "b".into(),
        detail: "unchanged".into(),
    });
    assert_eq!(state.percent(), 100);
}

#[test]
fn failure_keeps_last_measured_progress() {
    let mut state = ProgressState::new(vec![JobSpec::leaf("a", "group", "A", 1)]);
    state.apply(ProgressMessage::JobProgress {
        id: "a".into(),
        completed: 60,
        total: 100,
        detail: None,
    });
    assert_eq!(state.percent(), 60);
    state.apply(ProgressMessage::JobFailed {
        id: "a".into(),
        message: "kaputt".into(),
    });
    assert_eq!(state.percent(), 60);
    assert!(state.job("a").unwrap().elapsed.is_some());
}

#[test]
fn skipped_resume_jobs_reach_completion() {
    let mut state = ProgressState::new(vec![
        JobSpec::leaf("a", "group", "A", 1),
        JobSpec::leaf("b", "group", "B", 2),
    ]);
    for id in ["a", "b"] {
        state.apply(ProgressMessage::JobSkipped {
            id: id.into(),
            detail: "aus Journal".into(),
        });
    }
    assert_eq!(state.percent(), 100);
}

#[test]
fn job_paths_include_phase_and_vm() {
    let mut state = ProgressState::new(vec![JobSpec::group("phase", "VM-Provisioning")]);
    state.install_specs(vec![
        JobSpec {
            id: "vm:demo/web".into(),
            parent: Some("phase".into()),
            label: "demo/web".into(),
            units: 0,
        },
        JobSpec::leaf("vm:demo/web:cloud", "vm:demo/web", "Cloud-init", 1),
    ]);
    assert_eq!(
        job_path(state.jobs(), "vm:demo/web:cloud"),
        "VM-Provisioning / demo/web / Cloud-init"
    );
}

#[test]
fn nested_groups_aggregate_leaf_status_recursively() {
    let mut state = ProgressState::new(vec![
        JobSpec::group("phase", "VM-Provisioning"),
        JobSpec {
            id: "vm".into(),
            parent: Some("phase".into()),
            label: "demo/web".into(),
            units: 0,
        },
        JobSpec::leaf("cloud", "vm", "Cloud-init", 1),
    ]);
    assert_eq!(state.group_status("phase"), JobStatus::Pending);
    state.apply(ProgressMessage::JobDone {
        id: "cloud".into(),
        elapsed: Duration::ZERO,
    });
    assert_eq!(state.group_status("vm"), JobStatus::Done);
    assert_eq!(state.group_status("phase"), JobStatus::Done);
}

#[test]
fn completing_parallel_job_keeps_another_running_job_current() {
    let mut state = ProgressState::new(vec![
        JobSpec::leaf("a", "group", "A", 1),
        JobSpec::leaf("b", "group", "B", 1),
    ]);
    state.apply(ProgressMessage::JobStart { id: "a".into() });
    state.apply(ProgressMessage::JobStart { id: "b".into() });
    state.apply(ProgressMessage::JobDone {
        id: "b".into(),
        elapsed: Duration::ZERO,
    });
    assert_eq!(state.current().as_deref(), Some("a"));
}

#[test]
fn log_buffer_is_capped() {
    let mut state = ProgressState::new(Vec::new());
    for index in 0..(MAX_LOG_LINES + 20) {
        state.apply(ProgressMessage::Log {
            job_id: None,
            line: format!("line {index}"),
        });
    }
    assert_eq!(state.logs().len(), MAX_LOG_LINES);
    assert_eq!(state.logs()[0].1, "line 20");
}

#[test]
fn cloud_init_stage_weights_are_stable() {
    assert_eq!(
        cloud_init_stage_progress(Some("init-local")),
        Some((0, 100))
    );
    assert_eq!(cloud_init_stage_progress(Some("init")), Some((10, 100)));
    assert_eq!(
        cloud_init_stage_progress(Some("modules-config")),
        Some((30, 100))
    );
    assert_eq!(
        cloud_init_stage_progress(Some("modules-final")),
        Some((60, 100))
    );
    assert_eq!(cloud_init_stage_progress(None), None);
}

#[test]
fn unknown_cloud_init_stage_has_no_progress() {
    assert_eq!(cloud_init_stage_progress(Some("done")), None);
}

#[test]
fn unsupported_progress_value_is_named_in_the_error() {
    assert_eq!(
        parse_progress_flag(Some("fancy")).unwrap_err(),
        "unsupported --progress value: fancy (expected plain, ui, or off)"
    );
    assert_eq!(
        parse_progress_flag(None).unwrap_err(),
        "--progress requires plain, ui, or off"
    );
    assert_eq!(parse_progress_flag(Some("0")).unwrap(), ProgressMode::Off);
    assert_eq!(parse_progress_flag(Some("plain")).unwrap(), ProgressMode::Plain);
}

#[test]
fn explicit_progress_mode_wins() {
    assert_eq!(
        resolve_progress_mode_for(Some(ProgressMode::Ui), false, false, false),
        ProgressMode::Ui
    );
}

#[test]
fn elapsed_is_shown_in_milliseconds_then_as_a_clock() {
    assert_eq!(format_elapsed(Duration::from_millis(250)), "250ms");
    assert_eq!(format_elapsed(Duration::from_millis(1500)), "00:01");
    assert_eq!(format_elapsed(Duration::from_secs(3725)), "01:02:05");
    assert_eq!(format_clock(Duration::from_secs(59)), "00:59");
    assert_eq!(format_clock(Duration::from_secs(36000)), "10:00:00");
}

#[test]
fn default_jobs_have_six_phases_and_a_leaf_per_step() {
    let specs = default_job_specs(&["validate", "ensure_images", "custom"]);
    assert_eq!(specs.len(), 9);
    assert_eq!(specs[0].id, "phase-plan");
    assert_eq!(specs[6].id, "step:validate");
    assert_eq!(specs[6].parent.as_deref(), Some("phase-plan"));
    assert_eq!(specs[6].label, "Konfiguration prüfen");
    assert_eq!(specs[7].units, 2);
    assert_eq!(specs[8].parent.as_deref(), Some("phase-services"));
    assert_eq!(specs[8].label, "Apply-Schritt");
}

#[test]
fn vm_jobs_hang_below_the_vm_phase() {
    let specs = vm_job_specs(&["web".to_string()]);
    assert_eq!(specs.len(), 5);
    assert_eq!(specs[0].id, "vm:web");
    assert_eq!(specs[0].parent.as_deref(), Some("phase-vms"));
    assert_eq!(specs[4].id, "vm:web:cloud-init");
    assert_eq!(specs[4].units, 4);
}

#[test]
fn plan_sent_twice_installs_once() {
    let mut state = ProgressState::new(vec![JobSpec::leaf("a", "g", "A", 1)]);
    state.apply(ProgressMessage::JobStart { id: "a".into() });
    state.apply(ProgressMessage::Plan(vec![JobSpec::leaf("a", "g", "A", 1)]));
    assert_eq!(state.jobs().len(), 1);
    assert_eq!(state.job("a").unwrap().status, JobStatus::Running);
}

#[test]
fn detail_keys_are_overwritten_in_place() {
    let mut state = ProgressState::new(vec![JobSpec::leaf("a", "g", "A", 1)]);
    for value in ["1", "2"] {
        state.apply(ProgressMessage::JobDetail {
            id: "a".into(),
            key: "ip".into(),
            value: value.into(),
        });
    }
    let job = state.job("a").unwrap();
    assert_eq!(job.details.len(), 1);
    assert_eq!(job.details[0].1, "2");
}

#[test]
fn empty_log_lines_are_dropped_and_vm_states_logged() {
    let mut state = ProgressState::new(Vec::new());
    state.apply(ProgressMessage::Log {
        job_id: None,
        line: String::new(),
    });
    assert!(state.logs().is_empty());
    state.apply(ProgressMessage::VmState {
        vm_id: "web".into(),
        state: "running".into(),
    });
    assert_eq!(state.logs()[0].1, "vm web → running");
}

#[test]
fn plain_reporter_collects_lines() {
    let mut reporter = ProgressReporter::new(ProgressMode::Plain, None, &["validate"]);
    assert!(reporter.enabled());
    reporter.step_start("validate");
    assert_eq!(reporter.current_job_id().as_deref(), Some("step:validate"));
    assert_eq!(
        reporter.current_job_path().as_deref(),
        Some("Plan & Lease / Konfiguration prüfen")
    );
    reporter.log("checking");
    reporter.step_done("validate");
    assert_eq!(reporter.current_job_id(), None);
    assert_eq!(reporter.plain_percent(), Some(100));
    let lines = reporter.take_plain_lines();
    assert_eq!(lines.len(), 3);
    assert_eq!(lines[0].text, " → Plan & Lease / Konfiguration prüfen");
    assert_eq!(lines[0].percent, 0);
    assert_eq!(
        lines[1].text,
        "   Plan & Lease / Konfiguration prüfen · checking"
    );
    assert!(lines[2]
        .text
        .starts_with(" ✓ Plan & Lease / Konfiguration prüfen ("));
    assert_eq!(lines[2].percent, 100);
    assert!(reporter.take_plain_lines().is_empty());
}

#[test]
fn silent_reporter_keeps_state_without_lines() {
    let mut reporter = ProgressReporter::new(ProgressMode::Off, None, &["validate"]);
    assert!(!reporter.enabled());
    assert!(!reporter.pipe_subprocess_stderr());
    assert_eq!(reporter.plain_percent(), None);
    reporter.job_skip("step:validate", "unchanged");
    reporter.job_fail("step:missing", "boom");
    reporter.finished(true, "done");
    assert!(reporter.take_plain_lines().is_empty());
    assert_eq!(reporter.state().percent(), 100);
    assert!(reporter.log_sender().is_none());
}

#[test]
fn reporter_sends_to_its_channel() {
    let (tx, rx) = std::sync::mpsc::channel();
    let mut reporter = ProgressReporter::new(ProgressMode::Ui, Some(tx), &["validate"]);
    reporter.job_start("step:validate");
    assert!(reporter.log_sender().is_some());
    drop(reporter);
    let messages: Vec<ProgressMessage> = rx.iter().collect();
    assert_eq!(messages.len(), 2);
    assert!(matches!(messages[0], ProgressMessage::Plan(_)));
    assert!(matches!(messages[1], ProgressMessage::JobStart { .. }));
}

#[test]
fn reporter_publishes_percent_and_vm_jobs() {
    let mut reporter = ProgressReporter::new(ProgressMode::Plain, None, &[]);
    let handle = reporter.percent_handle();
    reporter.add_vm_jobs(&["web".to_string()]);
    reporter.job_detail("vm:web:create", "disk", "2G");
    reporter.job_progress("vm:web:create", 1, 2, Some("copying".to_string()));
    reporter.job_done("vm:web:create");
    assert_eq!(handle.load(std::sync::atomic::Ordering::Relaxed), 25);
    let lines = reporter.take_plain_lines();
    assert_eq!(
        lines[0].text,
        "   VM-Provisioning / web / VM erstellen · disk: 2G"
    );
    assert_eq!(lines[1].text, "   VM-Provisioning / web / VM erstellen: copying");
}

#[test]
fn plain_messages_describe_known_jobs() {
    let mut state = ProgressState::new(vec![JobSpec::leaf("a", "g", "A", 1)]);
    let start = plain_message(&mut state, ProgressMessage::JobStart { id: "a".into() }).unwrap();
    assert_eq!(start.text, " → A");
    let failed = plain_message(
        &mut state,
        ProgressMessage::JobFailed {
            id: "a".into(),
            message: "boom".into(),
        },
    )
    .unwrap();
    assert!(failed.text.starts_with(" ✗ A (boom · "));
    assert!(plain_message(&mut state, ProgressMessage::JobStart { id: "zz".into() }).is_none());
    let done = plain_message(
        &mut state,
        ProgressMessage::Finished {
            ok: true,
            message: "Fertig".into(),
        },
    )
    .unwrap();
    assert_eq!(done.text, " ✓ Fertig");
}

#[test]
fn subprocess_lines_carry_the_job_path() {
    assert_eq!(
        subprocess_line(Some("Images"), "pulling").as_deref(),
        Some("   Images · pulling")
    );
    assert_eq!(subprocess_line(None, "x").as_deref(), Some("   x"));
    assert_eq!(subprocess_line(Some("Images"), ""), None);
}

#[test]
fn vm_state_events_become_progress() {
    match vm_state_message(Some("vm.state"), Some("demo/web"), Some("running")) {
        Some(ProgressMessage::VmState { vm_id, state }) => {
            assert_eq!(vm_id, "demo/web");
            assert_eq!(state, "running");
        }
        _ => panic!("expected a VM state message"),
    }
    assert!(vm_state_message(Some("vm.log"), Some("demo/web"), Some("running")).is_none());
    assert!(vm_state_message(Some("vm.state"), Some(""), Some("running")).is_none());
    assert!(vm_state_message(Some("vm.state"), Some("demo/web"), None).is_none());
    assert!(vm_state_message(None, Some("demo/web"), Some("running")).is_none());
    let line = vm_state_line(42, "demo/web", "running");
    assert_eq!(line.percent, 42);
    assert_eq!(line.text, "   VM-Provisioning / demo/web / Zustand: running");
}

#[test]
fn reporter_sends_plans_and_zero_elapsed_for_unstarted_jobs() {
    let (tx, rx) = std::sync::mpsc::channel();
    let mut reporter = ProgressReporter::new(ProgressMode::Off, Some(tx), &["validate", "ensure_vms"]);
    match rx.try_recv().unwrap() {
        ProgressMessage::Plan(specs) => {
            assert_eq!(specs.len(), 8);
            assert_eq!(specs[6], JobSpec::leaf("step:validate", "phase-plan", "Konfiguration prüfen", 1));
            assert_eq!(specs[7], JobSpec::leaf("step:ensure_vms", "phase-vms", "VMs erstellen/aktualisieren", 2));
        }
        other => panic!("expected a plan, got {other:?}"),
    }
    assert!(rx.try_recv().is_err());
    reporter.add_vm_jobs(&[]);
    assert!(rx.try_recv().is_err());
    reporter.add_vm_jobs(&["demo/web".to_string()]);
    match rx.try_recv().unwrap() {
        ProgressMessage::Plan(specs) => {
            assert_eq!(specs.len(), 5);
            assert_eq!(specs[0].id, "vm:demo/web");
            assert_eq!(specs[0].parent.as_deref(), Some("phase-vms"));
            assert_eq!(specs[4], JobSpec::leaf("vm:demo/web:cloud-init", "vm:demo/web", "Cloud-init provisioning", 4));
        }
        other => panic!("expected a plan, got {other:?}"),
    }
    reporter.job_done("vm:demo/web:agent");
    match rx.try_recv().unwrap() {
        ProgressMessage::JobDone { id, elapsed } => {
            assert_eq!(id, "vm:demo/web:agent");
            assert_eq!(elapsed, Duration::ZERO);
        }
        other => panic!("expected a finished job, got {other:?}"),
    }
    reporter.job_fail("vm:demo/web:start", "boom");
    match rx.try_recv().unwrap() {
        ProgressMessage::JobFailed { id, message } => {
            assert_eq!(id, "vm:demo/web:start");
            assert_eq!(message, "boom");
        }
        other => panic!("expected a failed job, got {other:?}"),
    }
    assert!(rx.try_recv().is_err());
}

#[test]
fn percent_handle_follows_the_reporter() {
    let mut reporter = ProgressReporter::new(ProgressMode::Plain, None, &["validate"]);
    let handle = reporter.percent_handle();
    assert_eq!(handle.load(std::sync::atomic::Ordering::Relaxed), 0);
    reporter.job_start("step:validate");
    assert_eq!(handle.load(std::sync::atomic::Ordering::Relaxed), 0);
    reporter.job_done("step:validate");
    assert_eq!(handle.load(std::sync::atomic::Ordering::Relaxed), 100);
    assert_eq!(reporter.plain_percent(), Some(100));
}

#[test]
fn failed_job_keeps_the_shared_percent() {
    let mut reporter = ProgressReporter::new(ProgressMode::Off, None, &["validate", "ensure_vms"]);
    let handle = reporter.percent_handle();
    reporter.job_done("step:validate");
    let before = handle.load(std::sync::atomic::Ordering::Relaxed);
    assert_eq!(before, 33);
    reporter.job_start("step:ensure_vms");
    reporter.job_progress("step:ensure_vms", 1, 2, None);
    let measured = handle.load(std::sync::atomic::Ordering::Relaxed);
    assert_eq!(measured, 66);
    reporter.job_fail("step:ensure_vms", "boom");
    assert_eq!(handle.load(std::sync::atomic::Ordering::Relaxed), measured);
    assert_eq!(reporter.state().percent(), measured);
}
