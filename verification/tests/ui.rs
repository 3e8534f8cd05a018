use vzctl::progress::{apply_steps, default_job_specs, JobSpec, ProgressMessage};
use vzctl::ui::{is_ctrl_c, progress_bar, truncate, Key, UiSession};

fn plan(ui: &mut UiSession, specs: Vec<JobSpec>) {
    ui.apply(ProgressMessage::Plan(specs));
}

#[test]
fn renderer_stays_within_narrow_terminal_width() {
    let mut ui = UiSession::new("apply edge-dmz");
    plan(&mut ui, default_job_specs(&apply_steps()));
    ui.apply(ProgressMessage::JobStart {
        id: "step:ensure_images".into(),
    });
    for width in [32, 70, 120] {
        let lines = ui.render_lines(width, 20, "12:00:00");
        assert!(lines.iter().all(|line| line.chars().count() <= width));
        assert!(lines.len() <= 20);
    }
}

#[test]
fn renderer_scrolls_selected_job_into_view() {
    let specs = (0..30)
        .map(|index| JobSpec {
            id: format!("job-{index}"),
            parent: None,
            label: format!("Job {index}"),
            units: 1,
        })
        .collect();
    let mut ui = UiSession::new("apply");
    plan(&mut ui, specs);
    ui.selected = 29;
    let lines = ui.render_lines(100, 24, "12:00:00");
    assert!(lines.iter().any(|line| line.contains("› ○ Job 29")));
}

#[test]
fn ctrl_c_is_distinct_from_regular_c() {
    assert!(is_ctrl_c(Key::Char('c'), true));
    assert!(!is_ctrl_c(Key::Char('c'), false));
}

fn tree() -> Vec<JobSpec> {
    vec![
        JobSpec { id: "phase".into(), parent: None, label: "Phase".into(), units: 0 },
        JobSpec { id: "a".into(), parent: Some("phase".into()), label: "A".into(), units: 1 },
        JobSpec { id: "b".into(), parent: Some("phase".into()), label: "B".into(), units: 1 },
        JobSpec { id: "other".into(), parent: None, label: "Other".into(), units: 1 },
    ]
}

#[test]
fn groups_collapse_and_expand_with_enter() {
    let mut ui = UiSession::new("t");
    plan(&mut ui, tree());
    assert_eq!(ui.visible_jobs(), vec!["phase", "other"]);
    ui.handle_key(Key::Enter);
    assert_eq!(ui.visible_jobs(), vec!["phase", "a", "b", "other"]);
    ui.handle_key(Key::Char(' '));
    assert_eq!(ui.visible_jobs(), vec!["phase", "other"]);
}

#[test]
fn starting_a_job_expands_its_parent_and_selects_it() {
    let mut ui = UiSession::new("t");
    plan(&mut ui, tree());
    ui.apply(ProgressMessage::JobStart { id: "b".into() });
    assert_eq!(ui.visible_jobs(), vec!["phase", "a", "b", "other"]);
    assert_eq!(ui.selected, 2);
}

#[test]
fn arrows_keep_the_selection_within_the_rows() {
    let mut ui = UiSession::new("t");
    plan(&mut ui, tree());
    ui.handle_key(Key::Up);
    assert_eq!(ui.selected, 0);
    ui.handle_key(Key::Down);
    ui.handle_key(Key::Down);
    ui.handle_key(Key::Down);
    assert_eq!(ui.selected, 1);
    ui.handle_key(Key::Other);
    assert_eq!(ui.selected, 1);
}

#[test]
fn detail_pane_shows_status_and_job_log() {
    let mut ui = UiSession::new("t");
    plan(&mut ui, tree());
    ui.apply(ProgressMessage::JobStart { id: "a".into() });
    ui.apply(ProgressMessage::Log { job_id: Some("a".into()), line: "hello".into() });
    ui.apply(ProgressMessage::Log { job_id: None, line: "other".into() });
    let id = "a".to_string();
    let lines = ui.detail_lines_with(Some(&id), 40, 10, None);
    assert_eq!(lines, vec!["A", "Status: läuft"]);
    ui.handle_key(Key::Char('l'));
    let lines = ui.detail_lines_with(Some(&id), 40, 10, None);
    assert_eq!(lines, vec!["A", "Status: läuft", "", "Job-Log", "hello"]);
    assert_eq!(ui.detail_lines_with(None, 40, 10, None), vec!["Details"]);
    let missing = "zzz".to_string();
    assert!(ui.detail_lines_with(Some(&missing), 40, 10, None).is_empty());
}

#[test]
fn compact_frame_lists_current_job_and_log() {
    let mut ui = UiSession::new("t");
    plan(&mut ui, tree());
    ui.apply(ProgressMessage::JobStart { id: "a".into() });
    ui.apply(ProgressMessage::Log { job_id: None, line: "first".into() });
    let lines = ui.render_lines(40, 12, "09:30:00");
    assert!(lines[0].starts_with("◆ vzctl t  09:30:00  seit "));
    assert_eq!(lines[1], "[░░░░░░░░░░]   0%  0/3 Jobs");
    assert_eq!(lines[2], "");
    assert_eq!(lines[3], "◆ A");
    assert_eq!(lines[4], "");
    assert_eq!(lines[5], "Log");
    assert_eq!(lines[6], "  first");
    assert_eq!(lines[7], "Ctrl-C: zu Plain wechseln");
    assert_eq!(lines.len(), 8);
}

#[test]
fn text_helpers() {
    assert_eq!(truncate("abcdef", 4), "abc…");
    assert_eq!(truncate("abc", 3), "abc");
    assert_eq!(truncate("abc", 1), "…");
    assert_eq!(truncate("abc", 0), "");
    assert_eq!(progress_bar(50, 4), "[██░░]");
    assert_eq!(progress_bar(100, 3), "[███]");
}

#[test]
fn progress_bar_edges() {
    assert_eq!(progress_bar(0, 0), "[]");
    assert_eq!(progress_bar(33, 10), "[███░░░░░░░]");
    assert_eq!(progress_bar(0, 2), "[░░]");
}
