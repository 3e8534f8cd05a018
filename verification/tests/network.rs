use vzctl::network::{
    list_vm_attachments, parse, parse_ipv4, requested_format, validate_cidr, vm_network_selection, AttachReply,
    AttachmentReply, Format, Metadata, NetAttachmentRow, NetworkReply, Operation, Options, EXIT_INVALID, EXIT_USAGE,
};

fn strings(values: &[&str]) -> Vec<String> {
    values.iter().map(|value| value.to_string()).collect()
}

#[test]
fn parses_create_with_labels_and_metadata() {
    let options = parse(&strings(&[
        "create",
        "dmz",
        "--cidr",
        "10.80.0.0/24",
        "--mode",
        "shared",
        "--label",
        "tier=edge",
        "--project",
        "demo",
        "--stack",
        "dev",
        "--format",
        "json",
    ]))
    .unwrap();
    assert_eq!(
        options,
        Options {
            operation: Operation::Create {
                name: "dmz".to_string(),
                cidr: "10.80.0.0/24".to_string(),
                mode: "shared".to_string(),
                nat_egress: true,
                metadata: Metadata {
                    labels: vec![("tier".to_string(), "edge".to_string())],
                    project: Some("demo".to_string()),
                    stack: Some("dev".to_string()),
                },
            },
            format: Format::Json,
        }
    );
}

#[test]
fn rejects_bridged_and_invalid_label() {
    let bridged = strings(&[
        "create",
        "dmz",
        "--cidr",
        "10.80.0.0/24",
        "--mode",
        "bridged",
    ]);
    assert_eq!(parse(&bridged).unwrap_err().code, EXIT_INVALID);
    let bad_label = strings(&[
        "attach",
        "web",
        "--network",
        "dmz",
        "--ip",
        "10.80.0.10",
        "--label",
        "x",
    ]);
    assert_eq!(parse(&bad_label).unwrap_err().code, EXIT_INVALID);
    let noncanonical = strings(&["create", "dmz", "--cidr", "10.80.0.1/24"]);
    assert_eq!(parse(&noncanonical).unwrap_err().code, EXIT_INVALID);
    let invalid_ip = strings(&["attach", "web", "--network", "dmz", "--ip", "not-an-ip"]);
    assert_eq!(parse(&invalid_ip).unwrap_err().code, EXIT_INVALID);
}

#[test]
fn parses_default_show_and_set() {
    assert_eq!(
        parse(&strings(&["default", "show"])).unwrap(),
        Options {
            operation: Operation::DefaultShow,
            format: Format::Human,
        }
    );
    assert_eq!(
        parse(&strings(&[
            "default",
            "set",
            "lan",
            "--cidr",
            "10.70.0.0/24",
            "--format",
            "json"
        ]))
        .unwrap(),
        Options {
            operation: Operation::DefaultSet {
                name: "lan".to_string(),
                cidr: "10.70.0.0/24".to_string(),
            },
            format: Format::Json,
        }
    );
}

#[test]
fn ipv4_addresses_follow_the_dotted_form() {
    assert_eq!(parse_ipv4("10.80.0.10"), Some(0x0a50_000a));
    assert_eq!(parse_ipv4("255.255.255.255"), Some(u32::MAX));
    assert_eq!(parse_ipv4("256.0.0.1"), None);
    assert_eq!(parse_ipv4("01.2.3.4"), None);
    assert_eq!(parse_ipv4("1.2.3"), None);
    assert_eq!(parse_ipv4("1.2.3.4.5"), None);
    assert_eq!(parse_ipv4("1.2.3.4 "), None);
    assert_eq!(parse_ipv4("0.0.0.0"), Some(0));
}

#[test]
fn cidrs_need_a_prefix_in_range_and_no_host_bits() {
    assert!(validate_cidr("10.0.0.0/8").is_ok());
    assert!(validate_cidr("10.70.0.0/30").is_ok());
    assert_eq!(
        validate_cidr("10.70.0.0/31").unwrap_err().message,
        "invalid IPv4 CIDR prefix: 10.70.0.0/31"
    );
    assert_eq!(
        validate_cidr("10.70.0.0").unwrap_err().message,
        "invalid IPv4 CIDR: 10.70.0.0"
    );
    assert_eq!(
        validate_cidr("10.70.0.4/29").unwrap_err().message,
        "CIDR must use its network address: 10.70.0.4/29"
    );
    assert!(validate_cidr("10.70.0.8/29").is_ok());
}

#[test]
fn net_flags_need_values_and_come_once() {
    let missing = strings(&["create", "dmz", "--cidr"]);
    let failure = parse(&missing).unwrap_err();
    assert_eq!(failure.code, EXIT_USAGE);
    assert_eq!(failure.message, "--cidr requires a value");
    let twice = strings(&["create", "dmz", "--cidr", "10.0.0.0/24", "--cidr", "10.0.0.0/24"]);
    assert_eq!(parse(&twice).unwrap_err().message, "duplicate option: --cidr");
    let nat = strings(&["create", "dmz", "--cidr", "10.0.0.0/24", "--nat-egress", "maybe"]);
    assert_eq!(
        parse(&nat).unwrap_err().message,
        "invalid --nat-egress \"maybe\"; use true|false"
    );
    let off = strings(&["create", "dmz", "--cidr", "10.0.0.0/24", "--nat-egress", "no"]);
    match parse(&off).unwrap().operation {
        Operation::Create { nat_egress, .. } => assert!(!nat_egress),
        _ => panic!("expected create"),
    }
    assert_eq!(
        parse(&strings(&["list", "--label", "a=b"])).unwrap_err().message,
        "net list accepts only --format human|json"
    );
    assert_eq!(
        parse(&strings(&["frobnicate"])).unwrap_err().message,
        "unknown net command: frobnicate"
    );
}

#[test]
fn requested_format_follows_the_first_format_flag() {
    assert_eq!(requested_format(&strings(&["--format", "json"])), Format::Json);
    assert_eq!(
        requested_format(&strings(&["--format", "human", "--format", "json"])),
        Format::Human
    );
}

#[test]
fn vm_network_selection_prefers_attachment_project_for_guest_search_domain() {
    let reply = AttachReply {
        network: Some(NetworkReply {
            name: Some("dmz".into()),
            cidr: Some("10.80.0.0/24".into()),
            gateway: Some("10.80.0.0".into()),
            dns: Some("10.80.0.0".into()),
            project: Some("network-project".into()),
            backend: None,
        }),
        attachment: Some(AttachmentReply {
            ip: Some("10.80.0.10".into()),
            project: Some("edge-dmz".into()),
        }),
        prefix: Some(24),
        automatic: Some(true),
        created: Some(true),
    };
    let selection = vm_network_selection(&reply).unwrap();
    assert_eq!(selection.project.as_deref(), Some("edge-dmz"));
    assert_eq!(selection.gateway, "10.80.0.0");
    assert_eq!(selection.dns, "10.80.0.0");
}

#[test]
fn vm_network_selection_requires_fields_and_defaults_the_rest() {
    let reply = AttachReply {
        network: Some(NetworkReply {
            name: Some("lan".into()),
            cidr: Some("10.70.0.0/24".into()),
            gateway: Some("10.70.0.1".into()),
            dns: Some("10.70.0.1".into()),
            project: Some("p".into()),
            backend: None,
        }),
        attachment: Some(AttachmentReply { ip: Some("10.70.0.5".into()), project: None }),
        prefix: Some(24),
        automatic: None,
        created: None,
    };
    let selection = vm_network_selection(&reply).unwrap();
    assert_eq!(selection.project.as_deref(), Some("p"));
    assert_eq!(selection.backend, "vmnet");
    assert!(!selection.automatic && !selection.created);
    assert_eq!(selection.prefix, 24);
    let no_prefix = AttachReply { prefix: Some(300), ..reply.clone() };
    assert_eq!(
        vm_network_selection(&no_prefix).unwrap_err().message,
        "supervisor returned no network prefix"
    );
    let no_network = AttachReply { network: None, ..reply.clone() };
    assert_eq!(vm_network_selection(&no_network).unwrap_err().message, "supervisor returned no network");
    let no_ip = AttachReply { attachment: Some(AttachmentReply::default()), ..reply };
    assert_eq!(vm_network_selection(&no_ip).unwrap_err().message, "supervisor returned no ip");
}

fn net(name: &str, cidr: &str, backend: Option<&str>) -> NetworkReply {
    NetworkReply {
        name: Some(name.to_string()),
        cidr: Some(cidr.to_string()),
        gateway: Some("10.0.0.1".to_string()),
        dns: Some("10.0.0.1".to_string()),
        project: Some("demo".to_string()),
        backend: backend.map(str::to_string),
    }
}

fn attached(vm: &str, network: Option<&str>, ip: &str) -> NetAttachmentRow {
    NetAttachmentRow {
        vm_id: Some(vm.to_string()),
        network: network.map(str::to_string),
        ip: Some(ip.to_string()),
        project: None,
    }
}

#[test]
fn vm_attachments_list_vmnet_before_docker() {
    let networks = vec![
        net("lan", "10.90.0.0/24", None),
        net("dock", "172.30.0.0/16", Some("docker")),
        net("wan", "10.91.0.0", Some("vmnet")),
    ];
    let rows = vec![
        attached("demo/web", Some("dock"), "172.30.0.5"),
        attached("demo/api", Some("lan"), "10.90.0.11"),
        attached("demo/web", Some("wan"), "10.91.0.10"),
        attached("demo/web", Some("lan"), "10.90.0.10"),
    ];
    let nics = list_vm_attachments(&networks, &rows, "demo/web").unwrap();
    let names: Vec<_> = nics.iter().map(|n| n.network.as_str()).collect();
    assert_eq!(names, vec!["lan", "wan", "dock"]);
    assert_eq!(nics[0].ip, "10.90.0.10");
    assert_eq!(nics[0].prefix, 24);
    assert_eq!(nics[1].prefix, 24);
    assert_eq!(nics[2].prefix, 16);
    assert_eq!(nics[2].backend, "docker");
    assert_eq!(nics[0].backend, "vmnet");
    assert!(!nics[0].automatic && !nics[0].created);
    assert_eq!(nics[0].project.as_deref(), Some("demo"));
    assert!(list_vm_attachments(&networks, &rows, "demo/none").unwrap().is_empty());
}

#[test]
fn vm_attachments_need_known_networks() {
    let networks = vec![net("lan", "10.90.0.0/24", None)];
    let missing = list_vm_attachments(&networks, &[attached("v", None, "10.90.0.2")], "v").unwrap_err();
    assert_eq!(missing.code, EXIT_INVALID);
    assert_eq!(missing.message, "attachment missing network");
    let unknown = list_vm_attachments(&networks, &[attached("v", Some("dmz"), "10.9.0.2")], "v").unwrap_err();
    assert_eq!(unknown.message, "attachment references unknown network dmz");
    let mut no_gateway = net("lan", "10.90.0.0/24", None);
    no_gateway.gateway = None;
    let broken = list_vm_attachments(&[no_gateway], &[attached("v", Some("lan"), "10.90.0.2")], "v").unwrap_err();
    assert_eq!(broken.message, "supervisor returned no gateway");
}

#[test]
fn labels_keep_one_entry_per_key_in_key_order() {
    let options = parse(&strings(&[
        "create", "dmz", "--cidr", "10.80.0.0/24", "--label", "tier=edge", "--label", "app=web",
        "--label", "tier=core", "--label", "zone=a",
    ]))
    .unwrap();
    match options.operation {
        Operation::Create { metadata, .. } => assert_eq!(
            metadata.labels,
            vec![
                ("app".to_string(), "web".to_string()),
                ("tier".to_string(), "core".to_string()),
                ("zone".to_string(), "a".to_string()),
            ]
        ),
        other => panic!("expected create, got {other:?}"),
    }
}

#[test]
fn operations_name_their_command() {
    let list = parse(&strings(&["list"])).unwrap();
    assert_eq!(list.command(), "net.list");
    let show = parse(&strings(&["default", "show"])).unwrap();
    assert_eq!(show.command(), "net.default.show");
    let delete = parse(&strings(&["delete", "dmz"])).unwrap();
    assert_eq!(delete.command(), "net.delete");
}
