use vzctl::adopt::RuntimeRecord;
use vzctl::observability::{
    attachment_ips, dns_sections, http_socket_target, note_agent_reply, note_dns_split, note_ingress, note_mounts,
    note_router, note_vm_state, parse_status, parse_watch_options, push_warning, vm_state, watch_match, watch_tick, AgentReply, AttachmentRecord,
    Format, Health, Warning, AGENT_DEGRADED, AGENT_EXEC_TIMEOUT, AGENT_NOT_READY, DNS_GUEST_PROBE_FAIL,
    INGRESS_UNREACHABLE, MOUNT_MISSING, ROUTE_STATUS_AMBIGUOUS, VM_NOT_RUNNING,
};

#[test]
fn health_rank_raises_to_critical() {
    let mut health = Health::Healthy;
    health.raise(Health::Degraded);
    health.raise(Health::Critical);
    assert_eq!(health, Health::Critical);
    assert_eq!(health.exit(), 2);
}

#[test]
fn watch_filter_matches_prefix() {
    assert!(watch_match(Some("probe.*,stack.status"), "probe.dns_guest_probe_fail"));
    assert!(!watch_match(Some("vm.*"), "stack.status"));
}

#[test]
fn health_never_lowers() {
    let mut health = Health::Critical;
    health.raise(Health::Healthy);
    assert_eq!(health, Health::Critical);
    assert_eq!(health.as_str(), "critical");
    assert_eq!(Health::Healthy.exit(), 0);
}

#[test]
fn watch_filter_trims_and_matches_exactly() {
    assert!(watch_match(None, "anything"));
    assert!(watch_match(Some(" stack.status , vm.*"), "stack.status"));
    assert!(!watch_match(Some("stack.status"), "stack.status.x"));
    assert!(watch_match(Some("*"), "x"));
}

#[test]
fn socket_target_adds_scheme_port() {
    assert_eq!(http_socket_target("https://example.test/path"), "example.test:443");
    assert_eq!(http_socket_target("http://example.test?x"), "example.test:80");
    assert_eq!(http_socket_target("http://example.test:8080/a"), "example.test:8080");
    assert_eq!(http_socket_target("example.test#frag"), "example.test:80");
}

#[test]
fn status_options_are_read() {
    let args: Vec<String> = ["-C", "stack", "--format", "json", "--verbose"]
        .into_iter()
        .map(String::from)
        .collect();
    let options = parse_status(&args).ok().unwrap();
    assert_eq!(options.directory, "stack");
    assert_eq!(options.format, Format::Json);
    assert!(options.verbose);
    let bad: Vec<String> = ["--format", "xml"].into_iter().map(String::from).collect();
    let (message, code) = parse_status(&bad).err().unwrap();
    assert_eq!(message, "unsupported stack status format: xml");
    assert_eq!(code, 2);
}

#[test]
fn dns_sections_split_host_and_bridge() {
    let listeners = vec![Some("127.0.0.1:15353".to_string()), Some("10.90.0.0:53".to_string())];
    let sections = dns_sections(&listeners, Some(true), Some("system".to_string()));
    assert!(sections.host_ok);
    assert!(sections.bridge_ok);
    assert_eq!(sections.upstream_name.as_deref(), Some("system"));
}

#[test]
fn dns_sections_follow_the_supervisor_verdict() {
    let listeners = vec![None, Some("0.0.0.0:15353".to_string())];
    let sections = dns_sections(&listeners, None, None);
    assert!(sections.host_ok);
    assert!(!sections.bridge_ok);
    assert!(!dns_sections(&listeners, Some(false), None).host_ok);
    let bridge_only = vec![Some("10.90.0.1:53".to_string())];
    let sections = dns_sections(&bridge_only, Some(true), None);
    assert!(!sections.host_ok);
    assert!(sections.bridge_ok);
    assert!(!dns_sections(&[], Some(true), None).bridge_ok);
}

fn record(vm_id: Option<&str>, state: Option<&str>) -> RuntimeRecord {
    RuntimeRecord { vm_id: vm_id.map(str::to_string), state: state.map(str::to_string) }
}

#[test]
fn vm_state_defaults_to_stopped() {
    let records = vec![
        record(Some("demo/api"), Some("running")),
        record(Some("demo/web"), None),
        record(Some("demo/web"), Some("running")),
        record(None, Some("running")),
    ];
    assert_eq!(vm_state(&records, "demo/api"), "running");
    assert_eq!(vm_state(&records, "demo/web"), "stopped");
    assert_eq!(vm_state(&records, "demo/db"), "stopped");
}

#[test]
fn stopped_vm_is_critical() {
    let mut warnings: Vec<Warning> = Vec::new();
    let mut health = Health::Healthy;
    note_vm_state(&mut warnings, &mut health, "demo/web", "running");
    assert!(warnings.is_empty());
    assert_eq!(health, Health::Healthy);
    note_vm_state(&mut warnings, &mut health, "demo/web", "stopped");
    assert_eq!(health, Health::Critical);
    assert_eq!(warnings[0].code, VM_NOT_RUNNING);
    assert_eq!(warnings[0].message, "demo/web is stopped");
    assert_eq!(warnings[0].vm_id.as_deref(), Some("demo/web"));
    assert_eq!(warnings[0].hint, "vzctl vm start demo/web");
}

#[test]
fn agent_replies_grade_the_vm() {
    let mut warnings: Vec<Warning> = Vec::new();
    let mut health = Health::Healthy;
    assert!(note_agent_reply(&mut warnings, &mut health, "v", &AgentReply::Answered(Some("ok".to_string()))));
    assert!(warnings.is_empty());
    assert!(note_agent_reply(&mut warnings, &mut health, "v", &AgentReply::Answered(Some("degraded".to_string()))));
    assert_eq!(warnings[0].code, AGENT_DEGRADED);
    assert_eq!(warnings[0].message, "v agent is degraded");
    assert_eq!(health, Health::Degraded);
    assert!(!note_agent_reply(&mut warnings, &mut health, "v", &AgentReply::Answered(Some("down".to_string()))));
    assert_eq!(warnings[1].code, AGENT_NOT_READY);
    assert_eq!(warnings[1].message, "v agent health is down");
    assert_eq!(warnings[1].hint, "vzctl vm inspect v");
    assert_eq!(health, Health::Critical);
    assert!(note_agent_reply(&mut warnings, &mut health, "v", &AgentReply::Answered(None)));
    assert_eq!(warnings[2].message, "v agent health is unknown");

    let mut warnings: Vec<Warning> = Vec::new();
    let mut health = Health::Healthy;
    assert!(!note_agent_reply(&mut warnings, &mut health, "v", &AgentReply::Failed("RPC Timeout after 3s".to_string())));
    assert_eq!(warnings[0].code, AGENT_EXEC_TIMEOUT);
    assert_eq!(warnings[0].message, "v agent RPC timed out");
    assert_eq!(health, Health::Degraded);
    assert!(!note_agent_reply(&mut warnings, &mut health, "v", &AgentReply::Failed("refused".to_string())));
    assert_eq!(warnings[1].message, "v agent unavailable: refused");
    assert_eq!(health, Health::Critical);
}

#[test]
fn mounts_dns_routes_and_ingress_warnings() {
    let mut warnings: Vec<Warning> = Vec::new();
    let mut health = Health::Healthy;
    note_mounts(&mut warnings, &mut health, "v", 2, 2);
    note_dns_split(&mut warnings, &mut health, "v", "peer.lan.demo.vz.test", "10.0.0.3", true, true);
    note_dns_split(&mut warnings, &mut health, "v", "peer.lan.demo.vz.test", "10.0.0.3", false, false);
    note_router(&mut warnings, &mut health, Some("demo/router".to_string()), true, 3);
    note_ingress(&mut warnings, &mut health, "127.0.0.1:8443", true);
    assert!(warnings.is_empty());
    assert_eq!(health, Health::Healthy);

    note_mounts(&mut warnings, &mut health, "v", 1, 2);
    note_dns_split(&mut warnings, &mut health, "v", "peer.lan.demo.vz.test", "10.0.0.3", false, true);
    note_router(&mut warnings, &mut health, Some("demo/router".to_string()), true, 0);
    note_router(&mut warnings, &mut health, None, false, 4);
    note_ingress(&mut warnings, &mut health, "127.0.0.1:8443", false);
    let codes: Vec<_> = warnings.iter().map(|w| w.code).collect();
    assert_eq!(
        codes,
        vec![MOUNT_MISSING, DNS_GUEST_PROBE_FAIL, ROUTE_STATUS_AMBIGUOUS, ROUTE_STATUS_AMBIGUOUS, INGRESS_UNREACHABLE]
    );
    assert_eq!(warnings[0].message, "v is missing virtiofs mounts");
    assert_eq!(warnings[1].message, "v DNS probe to peer.lan.demo.vz.test failed; IP 10.0.0.3 ok");
    assert_eq!(warnings[2].vm_id.as_deref(), Some("demo/router"));
    assert_eq!(warnings[3].vm_id, None);
    assert_eq!(warnings[4].message, "host cannot reach ingress 127.0.0.1:8443");
    assert_eq!(health, Health::Degraded);
    push_warning(&mut warnings, &mut health, VM_NOT_RUNNING, Health::Critical, "x".to_string(), None, "h");
    assert_eq!(health, Health::Critical);
    assert_eq!(warnings.len(), 6);
}

#[test]
fn attachment_ips_of_one_vm() {
    let records = vec![
        AttachmentRecord { vm_id: Some("demo/web".to_string()), ip: Some("10.0.0.2".to_string()) },
        AttachmentRecord { vm_id: Some("demo/api".to_string()), ip: Some("10.0.0.3".to_string()) },
        AttachmentRecord { vm_id: Some("demo/web".to_string()), ip: None },
        AttachmentRecord { vm_id: Some("demo/web".to_string()), ip: Some("10.1.0.2".to_string()) },
    ];
    assert_eq!(attachment_ips(&records, "demo/web"), vec!["10.0.0.2", "10.1.0.2"]);
    assert!(attachment_ips(&records, "demo/db").is_empty());
}

fn args(values: &[&str]) -> Vec<String> {
    values.iter().map(|value| value.to_string()).collect()
}

#[test]
fn watch_options_defaults_and_errors() {
    let options = parse_watch_options(&[]).unwrap();
    assert_eq!(options.directory, ".");
    assert_eq!(options.filter, None);
    assert_eq!(options.interval, 5);
    let options = parse_watch_options(&args(&["-C", "/s", "--filter", "probe.*", "--interval", "30"])).unwrap();
    assert_eq!(options.directory, "/s");
    assert_eq!(options.filter.as_deref(), Some("probe.*"));
    assert_eq!(options.interval, 30);
    assert_eq!(
        parse_watch_options(&args(&["--interval", "0"])).unwrap_err(),
        ("--interval must be a positive integer".to_string(), 3)
    );
    assert_eq!(parse_watch_options(&args(&["--interval"])).unwrap_err(), ("--interval requires seconds".to_string(), 2));
    assert_eq!(parse_watch_options(&args(&["--filter"])).unwrap_err(), ("--filter requires a glob".to_string(), 2));
    assert_eq!(parse_watch_options(&args(&["-x"])).unwrap_err(), ("unknown stack watch option: -x".to_string(), 2));
    assert_eq!(
        parse_watch_options(&args(&["--help"])).unwrap_err().0,
        "usage: vzctl stack watch [-C dir] [--filter glob] [--interval sec]"
    );
}

fn warning(code: &'static str) -> Warning {
    Warning { code, severity: Health::Degraded, message: "m".to_string(), vm_id: None, hint: "h".to_string() }
}

#[test]
fn watch_announces_new_warnings_once() {
    let warnings = vec![warning(MOUNT_MISSING), warning(AGENT_DEGRADED)];
    let first = watch_tick(None, &[], &warnings);
    assert_eq!(
        first.announce,
        vec![(0, "probe.mount_missing".to_string()), (1, "probe.agent_degraded".to_string())]
    );
    assert_eq!(first.codes, vec!["MOUNT_MISSING", "AGENT_DEGRADED"]);
    assert!(first.status_event);
    let second = watch_tick(None, &first.codes, &warnings);
    assert!(second.announce.is_empty());
    let filtered = watch_tick(Some("probe.agent*"), &[], &warnings);
    assert_eq!(filtered.announce, vec![(1, "probe.agent_degraded".to_string())]);
    assert!(!filtered.status_event);
    assert!(watch_tick(Some("stack.status"), &[], &warnings).status_event);
}
