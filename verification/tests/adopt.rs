use vzctl::adopt::{
    adopt_candidates, adopt_message, idle_candidates, live_vms, lock_holder_pid, stale_lock_reports, RuntimeRecord,
    VmManifest,
};
use vzctl::reconciler::Resource;

fn resource(kind: &str, name: &str) -> Resource {
    Resource { kind: kind.to_string(), name: name.to_string(), labels: Vec::new(), state: "running".to_string() }
}

fn manifest(vm_id: &str, managed: bool, stack_id: Option<&str>) -> VmManifest {
    VmManifest { vm_id: vm_id.to_string(), managed_by_vzctl: managed, stack_id: stack_id.map(str::to_string) }
}

fn strings(values: &[&str]) -> Vec<String> {
    values.iter().map(|value| value.to_string()).collect()
}

#[test]
fn candidates_are_sorted_unique_stack_vms() {
    let desired = vec![resource("vm", "demo/web"), resource("network", "demo/lan"), resource("vm", "demo/api")];
    let actual = vec![resource("vm", "demo/web"), resource("vm", "demo/old")];
    let manifests = vec![
        manifest("demo/db", true, Some("stack-1")),
        manifest("other/db", true, Some("stack-2")),
        manifest("demo/cache", false, Some("stack-1")),
        manifest("demo/api", true, None),
    ];
    let candidates = adopt_candidates(&desired, &actual, &manifests, "stack-1");
    assert_eq!(candidates, strings(&["demo/api", "demo/db", "demo/old", "demo/web"]));
    assert!(adopt_candidates(&[], &[], &[], "s").is_empty());
}

#[test]
fn live_vms_are_starting_or_running() {
    let records = vec![
        RuntimeRecord { vm_id: Some("a".to_string()), state: Some("running".to_string()) },
        RuntimeRecord { vm_id: Some("b".to_string()), state: Some("stopped".to_string()) },
        RuntimeRecord { vm_id: Some("c".to_string()), state: Some("starting".to_string()) },
        RuntimeRecord { vm_id: None, state: Some("running".to_string()) },
        RuntimeRecord { vm_id: Some("d".to_string()), state: None },
    ];
    assert_eq!(live_vms(&records), strings(&["a", "c"]));
}

#[test]
fn only_idle_vms_with_stale_locks_are_reported() {
    let candidates = strings(&["a", "b", "c"]);
    let idle = idle_candidates(&candidates, &strings(&["b"]));
    assert_eq!(idle, strings(&["a", "c"]));
    let reports = stale_lock_reports(&idle, &[false, true]);
    assert_eq!(reports.len(), 1);
    assert_eq!(reports[0].action, "report");
    assert_eq!(reports[0].kind, "helper-lock");
    assert_eq!(reports[0].name, "c");
    assert!(!reports[0].breaking);
    assert_eq!(reports[0].reason, "stale helper lock (pid dead or flock free)");
    assert_eq!(adopt_message(reports.len()), "1 stale helper lock(s) reported");
    assert_eq!(adopt_message(0), "no lockfile-only resources adopted");
}

#[test]
fn lock_files_name_positive_pids() {
    assert_eq!(lock_holder_pid("4242\n"), Some(4242));
    assert_eq!(lock_holder_pid("  +7 "), Some(7));
    assert_eq!(lock_holder_pid("0"), None);
    assert_eq!(lock_holder_pid("-12"), None);
    assert_eq!(lock_holder_pid("2147483648"), None);
    assert_eq!(lock_holder_pid("2147483647"), Some(2147483647));
    assert_eq!(lock_holder_pid("pid"), None);
    assert_eq!(lock_holder_pid(""), None);
}
