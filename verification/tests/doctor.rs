use vzctl::cli::{EXIT_HOST_UNSUPPORTED, EXIT_SUPERVISOR_UNHEALTHY};
use vzctl::doctor::{
    ad_hoc_signature, apfs_check, daemon_binary_check, daemon_path_env, disk_space_status, dns_port_setting, macos_major_of, dns_port_check,
    doctor_exit_code, host_trust_check, human_report, image_backend_status, is_apfs, is_resolver_file, macos_check,
    overall_status, resolver_points_to, resolvers_check, summarize, supervisor_check, vmnet_check, BinaryProbe, Check,
    CheckStatus, HealthReply, PortProbe, SupervisorProbe, DEFAULT_DNS_PORT,
};

fn finding(id: &str, status: CheckStatus, message: &str) -> Check {
    Check { id: id.to_string(), status, message: message.to_string() }
}

fn healthy_reply() -> HealthReply {
    HealthReply {
        ok: true,
        db_ok: true,
        network_orphans: None,
        dns_ok: None,
        vz_net_ok: None,
        vz_edge_ok: None,
        dns_last_error: None,
        version: Some("0.4.0".to_string()),
        pid: "4242".to_string(),
        text: "{\"result\":{\"ok\":true}}".to_string(),
    }
}

#[test]
fn status_names_for_reports() {
    assert_eq!(CheckStatus::Pass.as_str(), "ok");
    assert_eq!(CheckStatus::Warn.as_str(), "warn");
    assert_eq!(CheckStatus::Fail.as_str(), "fail");
    assert_eq!(CheckStatus::Pass.label(), "OK");
    assert_eq!(CheckStatus::Warn.label(), "WARN");
    assert_eq!(CheckStatus::Fail.label(), "FAIL");
}

#[test]
fn macos_baseline_is_twenty_six() {
    let ok = macos_check(Some(26));
    assert_eq!(ok.id, "host.macos");
    assert_eq!(ok.status, CheckStatus::Pass);
    assert_eq!(ok.message, "macOS 26 meets the 26+ baseline");
    let old = macos_check(Some(15));
    assert_eq!(old.status, CheckStatus::Fail);
    assert_eq!(old.message, "macOS 15 is unsupported; macOS 26+ required (ADR 0001)");
    let unknown = macos_check(None);
    assert_eq!(unknown.status, CheckStatus::Fail);
    assert_eq!(unknown.message, "macOS version could not be determined; macOS 26+ required (ADR 0001)");
}

#[test]
fn vmnet_needs_the_baseline() {
    assert_eq!(vmnet_check(Some(27)).status, CheckStatus::Pass);
    let old = vmnet_check(Some(14));
    assert_eq!(old.id, "network.vmnet");
    assert_eq!(old.status, CheckStatus::Warn);
    assert_eq!(old.message, "custom vmnet requires macOS 26+; live network creation is not tested");
    assert_eq!(vmnet_check(None).status, CheckStatus::Warn);
}

#[test]
fn daemon_binary_findings() {
    assert_eq!(daemon_path_env("vz-helper"), "VZCTL_HELPER_PATH");
    assert_eq!(daemon_path_env("vz-supervisor"), "VZCTL_SUPERVISOR_PATH");

    let missing = daemon_binary_check("vz-helper", &BinaryProbe::Missing);
    assert_eq!(missing.id, "codesign.vz-helper");
    assert_eq!(missing.status, CheckStatus::Warn);
    assert_eq!(missing.message, "vz-helper not found; build it or set VZCTL_HELPER_PATH");

    let blind = daemon_binary_check("vz-supervisor", &BinaryProbe::Uninspectable { path: "/opt/vz-supervisor".to_string() });
    assert_eq!(blind.id, "codesign.vz-supervisor");
    assert_eq!(blind.message, "cannot inspect vz-supervisor with codesign (/opt/vz-supervisor)");

    let entitlements = "[Key] com.apple.security.virtualization\n\t[Value]\n\t\t[Bool] true\n";
    let good = daemon_binary_check(
        "vz-helper",
        &BinaryProbe::Inspected {
            path: "/opt/vz-helper".to_string(),
            signed: true,
            signature: "Identifier=vz-helper\nSignature=adhoc\n".to_string(),
            entitlements: entitlements.to_string(),
        },
    );
    assert_eq!(good.status, CheckStatus::Pass);
    assert_eq!(good.message, "vz-helper is ad-hoc signed with com.apple.security.virtualization");

    let developer = daemon_binary_check(
        "vz-helper",
        &BinaryProbe::Inspected {
            path: "/opt/vz-helper".to_string(),
            signed: true,
            signature: "Authority=Developer ID Application".to_string(),
            entitlements: entitlements.to_string(),
        },
    );
    assert_eq!(developer.message, "vz-helper is signed with com.apple.security.virtualization");

    let unsigned = daemon_binary_check(
        "vz-helper",
        &BinaryProbe::Inspected {
            path: "/opt/vz-helper".to_string(),
            signed: false,
            signature: String::new(),
            entitlements: entitlements.to_string(),
        },
    );
    assert_eq!(unsigned.status, CheckStatus::Warn);
    assert_eq!(unsigned.message, "vz-helper missing valid code signature (/opt/vz-helper)");

    let bare = daemon_binary_check(
        "vz-helper",
        &BinaryProbe::Inspected {
            path: "/opt/vz-helper".to_string(),
            signed: false,
            signature: String::new(),
            entitlements: "<dict></dict>".to_string(),
        },
    );
    assert_eq!(
        bare.message,
        "vz-helper missing valid code signature and com.apple.security.virtualization entitlement (/opt/vz-helper)"
    );

    let unentitled = daemon_binary_check(
        "vz-helper",
        &BinaryProbe::Inspected {
            path: "/opt/vz-helper".to_string(),
            signed: true,
            signature: String::new(),
            entitlements: String::new(),
        },
    );
    assert_eq!(unentitled.message, "vz-helper missing com.apple.security.virtualization entitlement (/opt/vz-helper)");
    assert!(ad_hoc_signature("CodeDirectory v=20400 Signature=adhoc"));
    assert!(!ad_hoc_signature("Signature size=9000"));
}

#[test]
fn apfs_findings() {
    assert!(is_apfs("APFS"));
    assert!(is_apfs("apfs"));
    assert!(!is_apfs("hfs"));
    let unknown = apfs_check("/images", "/", None);
    assert_eq!(unknown.id, "storage.apfs");
    assert_eq!(unknown.status, CheckStatus::Warn);
    assert_eq!(unknown.message, "cannot inspect filesystem for /images");
    let good = apfs_check("/images", "/Users", Some("ApFs"));
    assert_eq!(good.status, CheckStatus::Pass);
    assert_eq!(good.message, "/Users is on APFS (clonefile capable)");
    let other = apfs_check("/images", "/Volumes/x", Some("msdos"));
    assert_eq!(other.status, CheckStatus::Warn);
    assert_eq!(other.message, "/Volumes/x is on msdos; APFS is required for clonefile-backed images");
    let blank = apfs_check("/images", "/Volumes/x", Some(""));
    assert_eq!(blank.message, "/Volumes/x is on an unknown filesystem; APFS is required for clonefile-backed images");
}

#[test]
fn disk_space_threshold_is_inclusive() {
    assert_eq!(disk_space_status(Some(20 * 1024 * 1024), 20), CheckStatus::Pass);
    assert_eq!(disk_space_status(Some(20 * 1024 * 1024 - 1), 20), CheckStatus::Warn);
    assert_eq!(disk_space_status(None, 20), CheckStatus::Warn);
}

#[test]
fn dns_port_findings() {
    let (free, state) = dns_port_check(15353, &PortProbe::Free, &PortProbe::Free);
    assert_eq!(free.id, "dns.host_port");
    assert_eq!(free.status, CheckStatus::Pass);
    assert_eq!(free.message, "127.0.0.1:15353 is free for UDP and TCP DNS");
    assert_eq!(state, Some(true));

    let (busy, state) = dns_port_check(53, &PortProbe::InUse("in use".to_string()), &PortProbe::Free);
    assert_eq!(busy.status, CheckStatus::Warn);
    assert_eq!(busy.message, "127.0.0.1:53 is in use (UDP)");
    assert_eq!(state, Some(false));
    let (busy, _) = dns_port_check(53, &PortProbe::Free, &PortProbe::InUse("in use".to_string()));
    assert_eq!(busy.message, "127.0.0.1:53 is in use (TCP)");
    let (busy, _) =
        dns_port_check(53, &PortProbe::InUse("a".to_string()), &PortProbe::InUse("b".to_string()));
    assert_eq!(busy.message, "127.0.0.1:53 is in use (UDP and TCP)");

    let (odd, state) =
        dns_port_check(53, &PortProbe::Failed("Permission denied".to_string()), &PortProbe::Free);
    assert_eq!(odd.status, CheckStatus::Warn);
    assert_eq!(odd.message, "cannot reliably probe 127.0.0.1:53 (UDP: Permission denied; TCP: free)");
    assert_eq!(state, None);
}

#[test]
fn resolver_requires_localhost_and_configured_port() {
    let contents = "nameserver 127.0.0.1\nport 15353\n";
    assert!(resolver_points_to(Some(contents), 15353));
    assert!(!resolver_points_to(Some(contents), 15354));
}

#[test]
fn resolver_contents_edge_cases() {
    assert!(!resolver_points_to(None, 15353));
    assert!(resolver_points_to(Some("  port\t15353  \r\nnameserver   127.0.0.1"), 15353));
    assert!(!resolver_points_to(Some("nameserver 127.0.0.1 extra\nport 15353\n"), 15353));
    assert!(!resolver_points_to(Some("nameserver 10.0.0.1\nport 15353\n"), 15353));
    assert!(is_resolver_file("demo.vz.test"));
    assert!(!is_resolver_file("demo.vz.test.bak"));
}

#[test]
fn resolver_findings() {
    let none = resolvers_check(&[], 15353, Some(true));
    assert_eq!(none.id, "dns.resolvers");
    assert_eq!(none.status, CheckStatus::Pass);
    assert_eq!(none.message, "no *.vz.test resolver files installed (expected before DNS setup)");

    let bad = resolvers_check(&[true, false, false], 15353, Some(false));
    assert_eq!(bad.status, CheckStatus::Warn);
    assert_eq!(bad.message, "2 resolver file(s) do not point to 127.0.0.1:15353");

    let orphaned = resolvers_check(&[true, true], 15353, Some(true));
    assert_eq!(orphaned.status, CheckStatus::Warn);
    assert_eq!(orphaned.message, "2 *.vz.test resolver file(s) appear orphaned; DNS port 15353 is free");

    let served = resolvers_check(&[true], 15353, Some(false));
    assert_eq!(served.status, CheckStatus::Pass);
    assert_eq!(served.message, "1 *.vz.test resolver file(s) point to 127.0.0.1:15353");

    let unknown = resolvers_check(&[true], 15353, None);
    assert_eq!(unknown.status, CheckStatus::Warn);
    assert_eq!(unknown.message, "1 *.vz.test resolver file(s) are configured, but listener state is unknown");
}

#[test]
fn backend_and_trust_findings() {
    assert_eq!(image_backend_status("ok"), CheckStatus::Pass);
    assert_eq!(image_backend_status("fail"), CheckStatus::Fail);
    assert_eq!(image_backend_status("warn"), CheckStatus::Warn);
    assert_eq!(image_backend_status("OK"), CheckStatus::Warn);

    let absent = host_trust_check(false, false);
    assert_eq!(absent.id, "certs.host_trust");
    assert_eq!(absent.status, CheckStatus::Pass);
    assert_eq!(absent.message, "no local CA yet (optional until ingress/OIDC)");
    assert_eq!(host_trust_check(true, true).message, "vzctl Local CA is trusted in the macOS Keychain");
    let untrusted = host_trust_check(true, false);
    assert_eq!(untrusted.status, CheckStatus::Warn);
    assert!(untrusted.message.starts_with("Local CA exists but is not trusted in the Keychain"));
    assert!(untrusted.message.ends_with("run vzctl certs ca install"));
}

#[test]
fn supervisor_findings() {
    let socket = "/tmp/vz/supervisor.sock";
    let down = supervisor_check(socket, &SupervisorProbe::NotRunning);
    assert_eq!(down.id, "supervisor.health");
    assert_eq!(down.status, CheckStatus::Warn);
    assert_eq!(down.message, "supervisor not running (/tmp/vz/supervisor.sock)");

    let denied = supervisor_check(socket, &SupervisorProbe::Unreachable("Permission denied".to_string()));
    assert_eq!(denied.status, CheckStatus::Fail);
    assert_eq!(denied.message, "supervisor socket /tmp/vz/supervisor.sock: Permission denied");

    let broken = supervisor_check(socket, &SupervisorProbe::Failed("invalid health JSON: eof".to_string()));
    assert_eq!(broken.status, CheckStatus::Fail);
    assert_eq!(broken.message, "supervisor invalid health JSON: eof");

    let healthy = supervisor_check(socket, &SupervisorProbe::Replied(healthy_reply()));
    assert_eq!(healthy.status, CheckStatus::Pass);
    assert_eq!(healthy.message, "supervisor 0.4.0 (pid 4242, db ok, dns ok)");

    let mut anonymous = healthy_reply();
    anonymous.version = None;
    anonymous.pid = "null".to_string();
    assert_eq!(
        supervisor_check(socket, &SupervisorProbe::Replied(anonymous)).message,
        "supervisor unknown (pid null, db ok, dns ok)"
    );

    let mut sick = healthy_reply();
    sick.db_ok = false;
    let sick = supervisor_check(socket, &SupervisorProbe::Replied(sick));
    assert_eq!(sick.status, CheckStatus::Fail);
    assert_eq!(sick.message, "supervisor health is not ok: {\"result\":{\"ok\":true}}");

    let mut no_net = healthy_reply();
    no_net.vz_net_ok = Some(false);
    no_net.dns_ok = Some(false);
    let no_net = supervisor_check(socket, &SupervisorProbe::Replied(no_net));
    assert_eq!(no_net.status, CheckStatus::Warn);
    assert!(no_net.message.starts_with("supervisor is up, but vz-net is unavailable"));

    let mut no_edge = healthy_reply();
    no_edge.vz_edge_ok = Some(false);
    assert!(supervisor_check(socket, &SupervisorProbe::Replied(no_edge))
        .message
        .starts_with("supervisor is up, but vz-edge is unavailable or degraded"));

    let mut orphans = healthy_reply();
    orphans.network_orphans = Some(2);
    assert_eq!(
        supervisor_check(socket, &SupervisorProbe::Replied(orphans)).message,
        "supervisor is healthy, but 2 vmnet CIDR(s) could not be rebuilt; an unclean vz-net exit may have orphaned reservations until reboot"
    );

    let mut dns = healthy_reply();
    dns.dns_ok = Some(false);
    dns.dns_last_error = Some("bind: permission denied".to_string());
    assert_eq!(
        supervisor_check(socket, &SupervisorProbe::Replied(dns)).message,
        "supervisor is up, but DNS is degraded (bind: permission denied); guest :53 needs: sudo vzctl dns install-bind-helper"
    );
    let mut quiet_dns = healthy_reply();
    quiet_dns.dns_ok = Some(false);
    assert!(supervisor_check(socket, &SupervisorProbe::Replied(quiet_dns)).message.contains("(dns degraded)"));
}

#[test]
fn exit_code_prefers_host_then_supervisor() {
    let fine = vec![finding("host.macos", CheckStatus::Pass, "m"), finding("dns.resolvers", CheckStatus::Warn, "w")];
    assert_eq!(doctor_exit_code(Some(26), &fine), 0);
    assert_eq!(doctor_exit_code(Some(25), &fine), EXIT_HOST_UNSUPPORTED);
    assert_eq!(doctor_exit_code(None, &fine), EXIT_HOST_UNSUPPORTED);

    let failed = vec![finding("supervisor.health", CheckStatus::Fail, "supervisor x")];
    assert_eq!(doctor_exit_code(Some(26), &failed), EXIT_SUPERVISOR_UNHEALTHY);
    assert_eq!(doctor_exit_code(Some(15), &failed), EXIT_HOST_UNSUPPORTED);

    let other_failure = vec![finding("image.backend", CheckStatus::Fail, "x")];
    assert_eq!(doctor_exit_code(Some(26), &other_failure), 0);
    let supervisor_down = vec![finding("supervisor.health", CheckStatus::Warn, "supervisor not running")];
    assert_eq!(doctor_exit_code(Some(26), &supervisor_down), 0);
}

#[test]
fn summary_counts_every_finding_once() {
    let checks = vec![
        finding("host.macos", CheckStatus::Pass, "macOS 26 meets the baseline"),
        finding("codesign.vz-helper", CheckStatus::Warn, "vz-helper not found"),
    ];
    let summary = summarize(&checks);
    assert_eq!((summary.ok, summary.warnings, summary.failures), (1, 1, 0));
    assert_eq!(overall_status(&summary), "warn");

    let all_good = summarize(&[finding("a", CheckStatus::Pass, "x")]);
    assert_eq!(overall_status(&all_good), "ok");
    let mixed = summarize(&[
        finding("a", CheckStatus::Warn, "x"),
        finding("b", CheckStatus::Fail, "y"),
        finding("c", CheckStatus::Fail, "z"),
    ]);
    assert_eq!((mixed.ok, mixed.warnings, mixed.failures), (0, 1, 2));
    assert_eq!(overall_status(&mixed), "fail");
    let empty = summarize(&[]);
    assert_eq!((empty.ok, empty.warnings, empty.failures), (0, 0, 0));
}

#[test]
fn human_report_lists_findings_and_exit() {
    let checks = vec![
        finding("host.macos", CheckStatus::Pass, "macOS 26 meets the 26+ baseline"),
        finding("supervisor.health", CheckStatus::Fail, "supervisor socket /s: refused"),
    ];
    assert_eq!(
        human_report(&checks, 10),
        vec![
            "vzctl doctor".to_string(),
            "  OK: macOS 26 meets the 26+ baseline".to_string(),
            "  FAIL: supervisor socket /s: refused".to_string(),
            "  result: exit 10".to_string(),
        ]
    );
}

#[test]
fn settings_read_from_the_host() {
    assert_eq!(DEFAULT_DNS_PORT, 15353);
    assert_eq!(dns_port_setting(None), 15353);
    assert_eq!(dns_port_setting(Some("5353")), 5353);
    assert_eq!(dns_port_setting(Some("70000")), 15353);
    assert_eq!(dns_port_setting(Some("")), 15353);
    assert_eq!(macos_major_of("26.1\n"), Some(26));
    assert_eq!(macos_major_of(" 15 "), Some(15));
    assert_eq!(macos_major_of("x.1"), None);
    assert_eq!(macos_major_of(""), None);
}
