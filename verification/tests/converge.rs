use vzctl::converge::{
    attachments_to_detach, attachments_to_make, guest_ip, network_step, Attachment, AttachmentRow, NetworkDecl,
    NetworkRecord, NetworkStep,
};
use vzctl::reconciler::{EXIT_INVALID, EXIT_STEP};

fn text(s: &str) -> Option<String> {
    Some(s.to_string())
}

fn decl() -> NetworkDecl {
    NetworkDecl { name: "lan".to_string(), cidr: "10.90.0.0/24".to_string(), mode: "shared".to_string(), nat_egress: true }
}

fn row(vm: &str, net: &str, ip: &str, project: &str, stack: &str) -> AttachmentRow {
    AttachmentRow { vm_id: text(vm), network: text(net), ip: text(ip), project: text(project), stack: text(stack) }
}

fn attachment(vm: &str, net: &str, ip: &str) -> Attachment {
    Attachment { vm_id: vm.to_string(), network: net.to_string(), ip: ip.to_string() }
}

#[test]
fn networks_are_kept_created_or_recreated() {
    assert_eq!(network_step(&decl(), None, false).unwrap(), NetworkStep::Create);
    let same = NetworkRecord { cidr: text("10.90.0.0/24"), mode: text("shared"), nat_egress: None };
    assert_eq!(network_step(&decl(), Some(&same), false).unwrap(), NetworkStep::Keep);
    let moved = NetworkRecord { cidr: text("10.91.0.0/24"), mode: text("shared"), nat_egress: Some(true) };
    let failure = network_step(&decl(), Some(&moved), false).unwrap_err();
    assert_eq!(failure.code, EXIT_INVALID);
    assert_eq!(failure.message, "network lan requires recreate; use --force");
    assert_eq!(network_step(&decl(), Some(&moved), true).unwrap(), NetworkStep::Recreate);
    let no_egress = NetworkRecord { cidr: text("10.90.0.0/24"), mode: text("shared"), nat_egress: Some(false) };
    assert_eq!(network_step(&decl(), Some(&no_egress), true).unwrap(), NetworkStep::Recreate);
    let unknown_mode = NetworkRecord { cidr: text("10.90.0.0/24"), mode: None, nat_egress: None };
    assert!(network_step(&decl(), Some(&unknown_mode), false).is_err());
}

#[test]
fn undeclared_stack_attachments_are_detached() {
    let desired = vec![attachment("demo/web", "lan", "10.90.0.10"), attachment("demo/api", "lan", "10.90.0.11")];
    let rows = vec![
        row("demo/web", "lan", "10.90.0.10", "demo", "demo-stack"),
        row("demo/api", "lan", "10.90.0.99", "demo", "demo-stack"),
        row("other/db", "lan", "10.90.0.20", "other", "other-stack"),
        row("demo/old", "lan", "10.90.0.12", "demo", "demo-stack"),
    ];
    assert_eq!(attachments_to_detach(&desired, &rows, "demo", "demo-stack"), vec![1, 3]);
    assert_eq!(attachments_to_make(&desired, &rows), vec![1]);
    assert!(attachments_to_make(&desired, &[]).len() == 2);
    assert!(attachments_to_detach(&[], &[], "demo", "s").is_empty());
}

#[test]
fn port_forwards_reach_the_first_stack_attachment() {
    let rows = vec![
        row("demo/web", "lan", "10.90.0.10", "other", "demo-stack"),
        row("demo/web", "lan", "10.90.0.11", "demo", "demo-stack"),
        row("demo/web", "wan", "10.91.0.11", "demo", "demo-stack"),
    ];
    assert_eq!(guest_ip(&rows, "demo/web", "demo", "demo-stack", "ports[0]").unwrap(), "10.90.0.11");
    let failure = guest_ip(&rows, "demo/api", "demo", "demo-stack", "ports[1]").unwrap_err();
    assert_eq!(failure.code, EXIT_STEP);
    assert_eq!(failure.message, "port forward ports[1] needs attachment IP for VM demo/api");
    let no_ip = vec![AttachmentRow { vm_id: text("demo/web"), network: None, ip: None, project: text("demo"), stack: text("s") }];
    assert!(guest_ip(&no_ip, "demo/web", "demo", "s", "p").is_err());
}
