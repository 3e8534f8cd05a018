use vzctl::reconciler::{
    breaking_count, build_plan, confirms, data_disk_gib, desired_hash, final_resources, journal_context,
    needs_confirmation, needs_recreate, parse, state_file_component, steps_to_run, vm_create_args, vms_to_delete,
    JournalPayload, Mode, MountRequest, PlanAction, Resource, VmCreateRequest, EXIT_INCOMPLETE, EXIT_INVALID,
};

fn resource(kind: &str, name: &str, spec: &str, state: &str) -> Resource {
    Resource {
        kind: kind.to_string(),
        name: name.to_string(),
        labels: vec![("spec".to_string(), spec.to_string())],
        state: state.to_string(),
    }
}

#[test]
fn idempotent_plan_has_no_actions() {
    let desired = vec![resource("network", "lan", "{}", "active")];
    let plan = build_plan(Mode::Apply, desired.clone(), desired);
    assert!(plan.actions.is_empty());
}

#[test]
fn up_only_creates_and_starts() {
    let desired = vec![resource("vm", "web", "{\"disk\":2}", "running")];
    let actual = vec![
        resource("vm", "web", "{\"disk\":1}", "stopped"),
        resource("network", "old", "{}", "active"),
    ];
    let plan = build_plan(Mode::Up, desired, actual);
    assert_eq!(plan.actions.len(), 1);
    assert_eq!(plan.actions[0].action, "start");
}

#[test]
fn apply_marks_vm_and_network_updates_breaking() {
    let desired = vec![resource("vm", "web", "{\"disk\":2}", "running")];
    let actual = vec![resource("vm", "web", "{\"disk\":1}", "running")];
    let plan = build_plan(Mode::Apply, desired, actual);
    assert!(plan.actions[0].breaking);
}

#[test]
fn parses_gib_and_tib() {
    assert_eq!(data_disk_gib("4G").unwrap(), 4);
    assert_eq!(data_disk_gib("2TiB").unwrap(), 2048);
    assert!(data_disk_gib("512M").is_err());
}

#[test]
fn data_disk_errors_name_the_value() {
    let failure = data_disk_gib("64").unwrap_err();
    assert_eq!(failure.code, EXIT_INVALID);
    assert_eq!(failure.message, "invalid dataDisk: 64");
    assert_eq!(data_disk_gib("G").unwrap_err().message, "invalid dataDisk: G");
    assert_eq!(
        data_disk_gib("512M").unwrap_err().message,
        "dataDisk must use GiB/TiB for VM creation: 512M"
    );
    assert_eq!(
        data_disk_gib("18446744073709551615t").unwrap_err().message,
        "dataDisk is too large"
    );
    assert_eq!(data_disk_gib("3gb").unwrap(), 3);
}

#[test]
fn apply_orders_creates_deletes_and_updates_by_key() {
    let desired = vec![
        resource("vm", "web", "{}", "running"),
        resource("network", "lan", "{\"cidr\":1}", "active"),
    ];
    let actual = vec![
        resource("network", "lan", "{\"cidr\":2}", "active"),
        resource("network", "old", "{}", "active"),
        resource("vm", "db", "{}", "stopped"),
    ];
    let plan = build_plan(Mode::Apply, desired, actual);
    let keys: Vec<(String, String, &str, bool)> = plan
        .actions
        .iter()
        .map(|action| {
            (
                action.kind.clone(),
                action.name.clone(),
                action.action,
                action.breaking,
            )
        })
        .collect();
    assert_eq!(
        keys,
        vec![
            ("network".to_string(), "lan".to_string(), "update", true),
            ("network".to_string(), "old".to_string(), "delete", true),
            ("vm".to_string(), "db".to_string(), "delete", true),
            ("vm".to_string(), "web".to_string(), "create", false),
        ]
    );
    assert_eq!(plan.desired.len(), 2);
}

#[test]
fn down_stops_vms_and_deletes_nothing() {
    let desired = vec![
        resource("vm", "web", "{}", "running"),
        resource("network", "lan", "{}", "active"),
    ];
    let actual = vec![
        resource("vm", "web", "{}", "running"),
        resource("network", "lan", "{}", "active"),
        resource("vm", "old", "{}", "running"),
    ];
    let plan = build_plan(Mode::Down, desired, actual);
    assert_eq!(plan.actions.len(), 1);
    assert_eq!(plan.actions[0].action, "stop");
    assert_eq!(plan.actions[0].name, "web");
    assert!(!plan.actions[0].breaking);
}

#[test]
fn reconcile_options_follow_the_mode() {
    let args: Vec<String> = ["-C", "dir", "--force", "--format", "json"]
        .into_iter()
        .map(String::from)
        .collect();
    let options = parse("apply", &args).ok().unwrap();
    assert_eq!(options.mode, Mode::Apply);
    assert_eq!(options.config, "dir");
    assert!(options.force);
    let purge: Vec<String> = ["--purge"].into_iter().map(String::from).collect();
    assert_eq!(
        parse("up", &purge).err().unwrap().message,
        "unknown up option: --purge"
    );
    assert!(parse("down", &purge).ok().unwrap().purge);
    let both: Vec<String> = ["--resume", "--abort"].into_iter().map(String::from).collect();
    assert_eq!(parse("apply", &both).err().unwrap().code, EXIT_INVALID);
    assert!(parse("bogus", &[]).is_err());
}

#[test]
fn state_file_component_sanitizes_and_hashes() {
    assert_eq!(state_file_component("edge-dmz/web"), "edge-dmz_web-87f88d1f064e1ad3");
    assert_eq!(state_file_component(""), "-cbf29ce484222325");
    assert_eq!(state_file_component("ä b"), "__b-cca592c6d94de32c");
    let long = "x".repeat(70);
    let name = state_file_component(&long);
    assert!(name.starts_with(&"x".repeat(64)));
    assert_eq!(name.split('-').next().unwrap().len(), 64);
}

#[test]
fn resume_keeps_original_down_purge_context() {
    let payload = Some(Ok(JournalPayload { mode: Some("down".into()), purge: Some(true) }));
    assert_eq!(journal_context(&payload).unwrap(), (Mode::Down, true));
}

#[test]
fn journal_context_refusals() {
    assert_eq!(journal_context(&None).unwrap_err().message, "incomplete journal has no payload");
    assert_eq!(journal_context(&None).unwrap_err().code, EXIT_INCOMPLETE);
    let bad: Option<Result<JournalPayload, String>> = Some(Err("EOF".into()));
    assert_eq!(journal_context(&bad).unwrap_err().message, "invalid journal payload: EOF");
    let no_mode = Some(Ok(JournalPayload { mode: None, purge: Some(true) }));
    assert_eq!(journal_context(&no_mode).unwrap_err().message, "incomplete journal has no mode");
    let plan = Some(Ok(JournalPayload { mode: Some("plan".into()), purge: None }));
    assert_eq!(journal_context(&plan).unwrap_err().message, "cannot resume journal mode plan");
    let up = Some(Ok(JournalPayload { mode: Some("up".into()), purge: None }));
    assert_eq!(journal_context(&up).unwrap(), (Mode::Up, false));
}

#[test]
fn confirmation_answers() {
    assert!(confirms(" Yes\n"));
    assert!(confirms("y"));
    assert!(!confirms("no"));
    assert!(!confirms(""));
    assert!(!confirms("yess"));
}

#[test]
fn desired_hash_is_lowercase_sha256_hex() {
    assert_eq!(desired_hash(b"abc"), "ba7816bf8f01cfea414140de5dae2223b00361a396177a9cb410ff61f20015ad");
    assert_eq!(desired_hash(b""), "e3b0c44298fc1c149afbf4c8996fb92427ae41e4649b934ca495991b7852b855");
}

#[test]
fn apply_and_down_run_their_steps_in_order() {
    let apply = steps_to_run(Mode::Apply, None);
    assert_eq!(apply.len(), 18);
    assert_eq!(apply[0], "validate");
    assert_eq!(apply[5], "ensure_vms");
    assert_eq!(apply[17], "release_lease");
    assert_eq!(steps_to_run(Mode::Up, None), apply);
    let down = steps_to_run(Mode::Down, None);
    assert_eq!(
        down,
        vec![
            "purge_ingress",
            "purge_oidc",
            "stop_helpers",
            "detach_nets",
            "destroy_managed",
            "purge_docker_context",
            "purge_ports",
            "dns_cleanup",
            "release_lease",
        ]
    );
}

#[test]
fn resume_starts_at_the_journal_step() {
    let resumed = steps_to_run(Mode::Apply, Some("ensure_ports"));
    assert_eq!(resumed, vec!["ensure_ports", "apply_routes_policies", "release_lease"]);
    assert_eq!(steps_to_run(Mode::Apply, Some("validate")), steps_to_run(Mode::Apply, None));
    assert_eq!(steps_to_run(Mode::Down, Some("dns_cleanup")), vec!["dns_cleanup", "release_lease"]);
    assert!(steps_to_run(Mode::Apply, Some("purge_ports")).is_empty());
    assert!(steps_to_run(Mode::Apply, Some("nonsense")).is_empty());
}

fn action(breaking: bool) -> PlanAction {
    PlanAction {
        action: "update",
        kind: "vm".to_string(),
        name: "web".to_string(),
        breaking,
        reason: "spec changed".to_string(),
    }
}

#[test]
fn breaking_changes_need_confirmation_unless_forced() {
    let actions = vec![action(false), action(true), action(true)];
    assert_eq!(breaking_count(&actions), 2);
    assert!(needs_confirmation(&actions, false));
    assert!(!needs_confirmation(&actions, true));
    assert!(!needs_confirmation(&[action(false)], false));
    assert_eq!(breaking_count(&[]), 0);
}

#[test]
fn teardown_records_stopped_vms_or_nothing() {
    let desired = vec![resource("network", "lan", "{}", "active"), resource("vm", "web", "{}", "running")];
    let applied = final_resources(Mode::Apply, false, desired.clone());
    assert_eq!(applied[1].state, "running");
    let down = final_resources(Mode::Down, false, desired.clone());
    assert_eq!(down.len(), 2);
    assert_eq!(down[0].state, "active");
    assert_eq!(down[1].kind, "vm");
    assert_eq!(down[1].name, "web");
    assert_eq!(down[1].state, "stopped");
    assert!(final_resources(Mode::Down, true, desired).is_empty());
}

fn create_request() -> VmCreateRequest {
    VmCreateRequest {
        name: "web".to_string(),
        runtime_id: "demo/web".to_string(),
        image: "ubuntu-24.04".to_string(),
        data_disk: "2T".to_string(),
        project: "demo".to_string(),
        cpus: None,
        memory: None,
        network: None,
        roles: Vec::new(),
        cloud_init: None,
        mounts: Vec::new(),
    }
}

#[test]
fn vm_create_args_carry_the_declaration() {
    let plain = vm_create_args(&create_request()).unwrap();
    assert_eq!(
        plain,
        vec![
            "vm", "create", "demo/web", "--from", "ubuntu-24.04", "--data-disk", "2048", "--project", "demo",
            "--format", "json",
        ]
    );
    let mut full = create_request();
    full.data_disk = "20G".to_string();
    full.cpus = Some(2);
    full.memory = Some("4Gi".to_string());
    full.network = Some("lan".to_string());
    full.roles = vec!["app".to_string(), "docker".to_string(), "router".to_string()];
    full.cloud_init = Some("/cfg/init.yaml".to_string());
    full.mounts = vec![
        MountRequest {
            source: "src".to_string(),
            target: "/work".to_string(),
            read_only: false,
            volume_path: Some("/Users/me/src".to_string()),
        },
        MountRequest {
            source: "data".to_string(),
            target: "/data".to_string(),
            read_only: true,
            volume_path: Some("/Volumes/data".to_string()),
        },
    ];
    assert_eq!(
        vm_create_args(&full).unwrap(),
        vec![
            "vm", "create", "demo/web", "--from", "ubuntu-24.04", "--data-disk", "20", "--project", "demo",
            "--cpus", "2", "--memory", "4096MiB", "--network", "lan", "--role", "docker", "--role", "router",
            "--cloud-init", "/cfg/init.yaml", "--mount", "tag=src,source=/Users/me/src,target=/work", "--mount",
            "tag=data,source=/Volumes/data,target=/data,ro", "--format", "json",
        ]
    );
}

#[test]
fn vm_create_args_refuse_bad_declarations() {
    let mut zero = create_request();
    zero.cpus = Some(0);
    let failure = vm_create_args(&zero).unwrap_err();
    assert_eq!(failure.code, EXIT_INVALID);
    assert_eq!(failure.message, "VM web cpus must be greater than zero");

    let mut disk = create_request();
    disk.data_disk = "20M".to_string();
    disk.cpus = Some(0);
    assert_eq!(vm_create_args(&disk).unwrap_err().message, "dataDisk must use GiB/TiB for VM creation: 20M");

    let mut memory = create_request();
    memory.memory = Some("0".to_string());
    assert_eq!(vm_create_args(&memory).unwrap_err().message, "--memory must be greater than zero");

    let mut mount = create_request();
    mount.mounts = vec![MountRequest {
        source: "cache".to_string(),
        target: "/c".to_string(),
        read_only: false,
        volume_path: None,
    }];
    let failure = vm_create_args(&mount).unwrap_err();
    assert_eq!(failure.code, EXIT_INVALID);
    assert_eq!(failure.message, "VM web mount source \"cache\" is unknown");
}

fn vm_action(action: &'static str, name: &str, breaking: bool) -> PlanAction {
    PlanAction {
        action,
        kind: "vm".to_string(),
        name: name.to_string(),
        breaking,
        reason: String::new(),
    }
}

#[test]
fn deletes_and_recreates_follow_the_plan() {
    let actions = vec![
        vm_action("delete", "demo/old", false),
        PlanAction {
            action: "delete",
            kind: "network".to_string(),
            name: "demo/lan".to_string(),
            breaking: false,
            reason: String::new(),
        },
        vm_action("update", "demo/web", true),
        vm_action("update", "demo/api", false),
        vm_action("delete", "demo/tmp", false),
    ];
    assert_eq!(vms_to_delete(&actions), vec!["demo/old", "demo/tmp"]);
    let refused = needs_recreate(&actions, "demo/web", false).unwrap_err();
    assert_eq!(refused.code, EXIT_INVALID);
    assert_eq!(refused.message, "VM recreate requires --force");
    assert!(needs_recreate(&actions, "demo/web", true).unwrap());
    assert!(!needs_recreate(&actions, "demo/api", false).unwrap());
    assert!(!needs_recreate(&actions, "demo/new", false).unwrap());
}
