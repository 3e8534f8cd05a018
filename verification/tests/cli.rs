use vzctl::cli::{
    base64url_unpadded, cloud_init_fqdn, filesystem_for_mount_point, has_virtualization_entitlement,
    image_cleanup_commands, image_preservation_checks, parse_df_available_kib,
    parse_events_options, parse_image_pull_options, parse_image_seal_options, parse_memory_mib,
    resolve_create_vm_id, valid_event_filter, valid_image_tag, valid_vm_id, vm_id_basename,
    EventsOptions, ImagePullOptions, ImageSealOptions, OutputFormat, DEFAULT_VM_CPUS,
    DEFAULT_VM_MEMORY_MIB, EXIT_DNS_QUERY, EXIT_HOST_UNSUPPORTED, EXIT_IMAGE_ARCH,
    EXIT_IMAGE_CHECKSUM, EXIT_IMAGE_CUSTOMIZE_FAILED, EXIT_IMAGE_INVARIANT_FAILED,
    EXIT_IMAGE_NETWORK, EXIT_IMAGE_STATE_FAILED, EXIT_INCOMPLETE_JOURNAL, EXIT_INVALID_INPUT,
    EXIT_LEASE_HELD, EXIT_RESOLVER, EXIT_SUPERVISOR_UNHEALTHY, EXIT_UNAVAILABLE, EXIT_USAGE,
    EXIT_VM_DISK_PREP_FAILED,
};
use vzctl::network::{VmNetworkSelection, EXIT_NETWORK};
use vzctl::route::EXIT_ROUTE;
use vzctl::vm::{parse_vm_create_options, render_cloud_init_network_config, VmCreateOptions, VmIdentity};
use vzctl::mounts::ResolvedMount;

fn strings(values: &[&str]) -> Vec<String> {
    values.iter().map(|value| value.to_string()).collect()
}

#[test]
fn stable_exit_code_mapping_matches_cli_contract() {
    assert_eq!(EXIT_USAGE, 2);
    assert_eq!(EXIT_INVALID_INPUT, 3);
    assert_eq!(EXIT_INCOMPLETE_JOURNAL, 5);
    assert_eq!(EXIT_LEASE_HELD, 6);
    assert_eq!(EXIT_SUPERVISOR_UNHEALTHY, 10);
    assert_eq!(EXIT_HOST_UNSUPPORTED, 11);
    assert_eq!(EXIT_UNAVAILABLE, 12);
    assert_eq!(EXIT_IMAGE_CUSTOMIZE_FAILED, 13);
    assert_eq!(EXIT_IMAGE_INVARIANT_FAILED, 14);
    assert_eq!(EXIT_IMAGE_STATE_FAILED, 15);
    assert_eq!(EXIT_VM_DISK_PREP_FAILED, 16);
    assert_eq!(EXIT_NETWORK, 17);
    assert_eq!(EXIT_ROUTE, 18);
    assert_eq!(EXIT_RESOLVER, 19);
    assert_eq!(EXIT_DNS_QUERY, 20);
    assert_eq!(EXIT_IMAGE_NETWORK, 21);
    assert_eq!(EXIT_IMAGE_CHECKSUM, 22);
    assert_eq!(EXIT_IMAGE_ARCH, 23);
}

#[test]
fn image_pull_options_accept_alias_and_json_in_any_order() {
    let args = strings(&["--format", "json", "ubuntu-latest"]);
    assert_eq!(
        parse_image_pull_options(&args).unwrap(),
        ImagePullOptions {
            alias: "ubuntu-latest".to_string(),
            format: OutputFormat::Json,
        }
    );
}

#[test]
fn image_seal_options_accept_path_and_json_in_any_order() {
    let args = strings(&["--format", "json", "--tag", "v1", "base.raw"]);
    assert_eq!(
        parse_image_seal_options(&args).unwrap(),
        ImageSealOptions {
            input: "base.raw".to_string(),
            tag: Some("v1".to_string()),
            format: OutputFormat::Json,
        }
    );
}

#[test]
fn image_cleanup_matches_guest_agent_base_pipeline() {
    let cleanup = image_cleanup_commands();
    let preservation = image_preservation_checks();
    assert!(cleanup
        .iter()
        .any(|command| command.contains("cloud-init clean --logs")));
    assert!(cleanup
        .iter()
        .any(|command| command.contains("truncate -s 0 /etc/machine-id")));
    assert!(cleanup
        .iter()
        .any(|command| command.contains("/etc/ssh") && command.contains("ssh_host_*")));
    assert!(cleanup
        .iter()
        .any(|command| command.contains("/var/lib/systemd/random-seed")));
    assert!(preservation
        .iter()
        .any(|command| command.contains("/usr/local/sbin/vzctl-agent")));
    assert!(preservation
        .iter()
        .any(|command| command.contains("vzctl-agent.service")));
    assert!(preservation
        .iter()
        .any(|command| command.contains("/etc/init.d/vzctl-agent")));
    assert!(preservation
        .iter()
        .any(|command| command.contains("image-metadata.json")));
}

#[test]
fn vm_create_options_accept_required_flags_in_any_order() {
    let args = strings(&[
        "--data-disk",
        "64",
        "web-1",
        "--format",
        "json",
        "--role",
        "router",
        "--network",
        "lan",
        "--from",
        "ubuntu-base",
    ]);
    assert_eq!(
        parse_vm_create_options(&args).unwrap(),
        VmCreateOptions {
            id: "web-1".to_string(),
            from: "ubuntu-base".to_string(),
            data_disk_gib: 64,
            cpus: DEFAULT_VM_CPUS,
            memory_mib: DEFAULT_VM_MEMORY_MIB,
            roles: vec!["router".to_string()],
            requested_network: Some("lan".to_string()),
            network: None,
            networks: Vec::new(),
            root_password: None,
            cloud_init: None,
            project: None,
            mounts: Vec::new(),
            format: OutputFormat::Json,
        }
    );
}

#[test]
fn vm_create_rejects_unsafe_id_and_zero_data_disk() {
    let unsafe_id = strings(&["../web", "--from", "base", "--data-disk", "1"]);
    assert_eq!(
        parse_vm_create_options(&unsafe_id).unwrap_err().code,
        EXIT_INVALID_INPUT
    );
    let zero_size = strings(&["web", "--from", "base", "--data-disk", "0"]);
    assert_eq!(
        parse_vm_create_options(&zero_size).unwrap_err().code,
        EXIT_INVALID_INPUT
    );
}

#[test]
fn valid_vm_id_accepts_flat_and_project_slash_forms() {
    assert!(valid_vm_id("web"));
    assert!(valid_vm_id("edge-dmz/web"));
    assert!(!valid_vm_id("../web"));
    assert!(!valid_vm_id("a/b/c"));
    assert!(!valid_vm_id("/web"));
    assert!(!valid_vm_id("edge-dmz/"));
    assert!(!valid_vm_id(""));
}

#[test]
fn resolve_create_vm_id_namespaces_with_project() {
    assert_eq!(
        resolve_create_vm_id("web", None).unwrap(),
        "web".to_string()
    );
    assert_eq!(
        resolve_create_vm_id("web", Some("edge-dmz")).unwrap(),
        "edge-dmz/web".to_string()
    );
    assert_eq!(
        resolve_create_vm_id("edge-dmz/web", Some("edge-dmz")).unwrap(),
        "edge-dmz/web".to_string()
    );
    assert!(resolve_create_vm_id("other/web", Some("edge-dmz")).is_err());
}

#[test]
fn vm_create_with_project_prefixes_flat_id() {
    let args = strings(&[
        "web",
        "--from",
        "ubuntu-base",
        "--data-disk",
        "4",
        "--project",
        "edge-dmz",
    ]);
    let options = parse_vm_create_options(&args).unwrap();
    assert_eq!(options.id, "edge-dmz/web");
    assert_eq!(options.project.as_deref(), Some("edge-dmz"));
}

#[test]
fn vm_create_rejects_project_prefix_mismatch() {
    let args = strings(&[
        "lab/web",
        "--from",
        "ubuntu-base",
        "--data-disk",
        "4",
        "--project",
        "edge-dmz",
    ]);
    assert_eq!(
        parse_vm_create_options(&args).unwrap_err().code,
        EXIT_INVALID_INPUT
    );
}

#[test]
fn docker_role_defaults_project_and_namespaces_id() {
    let args = strings(&[
        "web",
        "--from",
        "ubuntu-base",
        "--data-disk",
        "4",
        "--role",
        "docker",
    ]);
    let options = parse_vm_create_options(&args).unwrap();
    assert_eq!(options.project.as_deref(), Some("default"));
    assert_eq!(options.id, "default/web");
}

#[test]
fn vm_create_accepts_cpus_and_memory_flags() {
    let args = strings(&[
        "web",
        "--from",
        "ubuntu-base",
        "--data-disk",
        "4",
        "--cpus",
        "4",
        "--memory",
        "2Gi",
    ]);
    let options = parse_vm_create_options(&args).unwrap();
    assert_eq!(options.cpus, 4);
    assert_eq!(options.memory_mib, 2048);
    assert_eq!(parse_memory_mib("2048").unwrap(), 2048);
    assert_eq!(parse_memory_mib("2G").unwrap(), 2048);
    assert_eq!(parse_memory_mib("2Gi").unwrap(), 2048);
}

#[test]
fn vm_create_rejects_invalid_cpus_and_memory() {
    let zero_cpus = strings(&["web", "--from", "base", "--data-disk", "1", "--cpus", "0"]);
    assert_eq!(
        parse_vm_create_options(&zero_cpus).unwrap_err().code,
        EXIT_INVALID_INPUT
    );
    let bad_memory = strings(&["web", "--from", "base", "--data-disk", "1", "--memory", "0"]);
    assert_eq!(
        parse_vm_create_options(&bad_memory).unwrap_err().code,
        EXIT_INVALID_INPUT
    );
    let junk_memory = strings(&["web", "--from", "base", "--data-disk", "1", "--memory", "lots"]);
    assert_eq!(
        parse_vm_create_options(&junk_memory).unwrap_err().code,
        EXIT_INVALID_INPUT
    );
}

#[test]
fn identity_helpers_produce_cloud_init_safe_values() {
    assert_eq!(cloud_init_fqdn("Web_01.Example"), "web-01.example");
    assert_eq!(cloud_init_fqdn("edge-dmz/Web_01"), "web-01");
    assert_eq!(cloud_init_fqdn("..."), "vm");
    assert_eq!(vm_id_basename("edge-dmz/web"), "web");
    assert_eq!(vm_id_basename("web"), "web");
    assert_eq!(base64url_unpadded(&[0xfb, 0xff, 0xef]), "-__v");
    assert_eq!(base64url_unpadded(&[0xff]), "_w");
}

fn lan(project: Option<&str>) -> VmNetworkSelection {
    VmNetworkSelection {
        network: "lan".to_string(),
        cidr: "10.70.0.0/24".to_string(),
        ip: "10.70.0.10".to_string(),
        gateway: "10.70.0.0".to_string(),
        dns: "10.70.0.0".to_string(),
        project: project.map(str::to_string),
        prefix: 24,
        automatic: true,
        created: true,
        backend: "vmnet".to_string(),
    }
}

fn identity() -> VmIdentity {
    VmIdentity {
        instance_id: "test".to_string(),
        hostname: "web".to_string(),
        fqdn: "web".to_string(),
        mac_addresses: vec!["02:12:34:56:78:9a".to_string()],
    }
}

#[test]
fn automatic_default_network_uses_only_hypervisor_dns_and_project_search() {
    let network = lan(Some("edge-dmz"));
    assert_eq!(
        render_cloud_init_network_config(&identity(), std::slice::from_ref(&network)),
        [
            "version: 2\n",
            "ethernets:\n",
            "  nic0:\n",
            "    match:\n",
            "      macaddress: \"02:12:34:56:78:9a\"\n",
            "    set-name: enp0s1\n",
            "    dhcp4: false\n",
            "    dhcp6: false\n",
            "    addresses:\n",
            "      - 10.70.0.10/24\n",
            "    routes:\n",
            "      - to: default\n",
            "        via: 10.70.0.0\n",
            "        on-link: true\n",
            "    nameservers:\n",
            "      addresses:\n",
            "        - 10.70.0.0\n",
            "      search:\n",
            "        - edge-dmz.vz.test\n",
        ]
        .concat()
    );
}

#[test]
fn network_without_project_does_not_invent_a_dns_search_zone() {
    let network = lan(None);
    let config = render_cloud_init_network_config(&identity(), std::slice::from_ref(&network));
    assert!(config.contains("addresses:\n        - 10.70.0.0"));
    assert!(!config.contains("search:"));
    assert!(!config.contains("nameserver 127.0.0.1"));
}

#[test]
fn vm_without_network_uses_dhcp() {
    let config = render_cloud_init_network_config(&identity(), &[]);
    assert!(config.contains("dhcp4: true"));
    let second = render_cloud_init_network_config(&identity(), &[lan(None), lan(None)]);
    assert!(second.contains("  nic1:\n"));
    assert!(second.contains("set-name: enp0s2\n"));
    assert_eq!(second.matches("routes:").count(), 1);
}

#[test]
fn event_options_parse_filter_list() {
    let args = strings(&["--filter", "vm.*,apply.*"]);
    assert_eq!(
        parse_events_options(&args).unwrap(),
        EventsOptions {
            filter: Some("vm.*,apply.*".to_string()),
        }
    );
}

#[test]
fn event_filter_accepts_exact_and_suffix_wildcards() {
    assert!(valid_event_filter("vm.*, apply.failed"));
    assert!(valid_event_filter("*"));
    assert!(!valid_event_filter("vm.*.failed"));
    assert!(!valid_event_filter("vm.,"));
}

#[test]
fn parses_available_kib_from_df() {
    let df = "Filesystem 1024-blocks Used Available Capacity Mounted on\n\
              /dev/disk3s1 100000 25000 75000 25% /System/Volumes/Data\n";
    assert_eq!(parse_df_available_kib(df), Some(75_000));
}

#[test]
fn detects_virtualization_entitlement() {
    let plist = "<key>com.apple.security.virtualization</key><true/>";
    assert!(has_virtualization_entitlement(plist));
    assert!(!has_virtualization_entitlement("<dict></dict>"));
}

#[test]
fn parses_apfs_from_mount_output() {
    let mounts = "/dev/disk3s1s1 on / (apfs, sealed, local, read-only)\n\
                  devfs on /dev (devfs, local, nobrowse)\n";
    assert_eq!(
        filesystem_for_mount_point(mounts, "/").as_deref(),
        Some("apfs")
    );
}

#[test]
fn memory_units_and_errors() {
    assert_eq!(parse_memory_mib("1t").unwrap(), 1_048_576);
    assert_eq!(parse_memory_mib("512MiB").unwrap(), 512);
    assert_eq!(parse_memory_mib("").unwrap_err(), "invalid --memory: empty");
    assert_eq!(
        parse_memory_mib("0G").unwrap_err(),
        "--memory must be greater than zero"
    );
    assert_eq!(
        parse_memory_mib("5X").unwrap_err(),
        "--memory must use MiB/GiB/TiB or a bare MiB integer: 5X"
    );
    assert_eq!(
        parse_memory_mib("18446744073709551615G").unwrap_err(),
        "--memory is too large"
    );
}

#[test]
fn image_tags_and_option_errors() {
    assert!(valid_image_tag("v1.2_rc-3"));
    assert!(!valid_image_tag("-v1"));
    assert!(!valid_image_tag(""));
    let missing_tag = strings(&["base.raw"]);
    assert_eq!(
        parse_image_seal_options(&missing_tag).unwrap_err().message,
        "image seal requires --tag <tag>"
    );
    let two = strings(&["a", "b"]);
    assert_eq!(
        parse_image_pull_options(&two).unwrap_err().message,
        "unexpected image pull argument: b"
    );
}

#[test]
fn df_and_mount_edge_cases() {
    assert_eq!(parse_df_available_kib(""), None);
    assert_eq!(parse_df_available_kib("a b c\n  \n"), None);
    assert_eq!(
        filesystem_for_mount_point("x on /data (hfs, local)\r\n", "/data").as_deref(),
        Some("hfs")
    );
    assert_eq!(filesystem_for_mount_point("x on /data (hfs)\n", "/"), None);
    assert!(has_virtualization_entitlement(
        "com.apple.security.virtualization = 1"
    ));
}

#[test]
fn vm_create_requires_image_and_disk() {
    let no_from = strings(&["web", "--data-disk", "1"]);
    let failure = parse_vm_create_options(&no_from).unwrap_err();
    assert_eq!(failure.code, EXIT_USAGE);
    assert_eq!(failure.message, "vm create requires --from <sealed>");
    let dup_role = strings(&[
        "web", "--from", "b", "--data-disk", "1", "--role", "router", "--role", "router",
    ]);
    assert_eq!(parse_vm_create_options(&dup_role).unwrap().roles.len(), 1);
    let mount = strings(&["web", "--from", "b", "--data-disk", "1", "--mount", "source=/x,target=/y"]);
    assert_eq!(
        parse_vm_create_options(&mount).unwrap().mounts,
        vec![ResolvedMount {
            name: "x".to_string(),
            source: "/x".to_string(),
            target: "/y".to_string(),
            read_only: false,
        }]
    );
}

#[test]
fn vm_create_refuses_bad_and_repeated_mounts() {
    let bad = strings(&["w", "--from", "b", "--data-disk", "1", "--mount", "m"]);
    let failure = parse_vm_create_options(&bad).unwrap_err();
    assert_eq!(failure.code, EXIT_INVALID_INPUT);
    assert_eq!(failure.message, "invalid --mount fragment \"m\"; expected key=value");
    let same_name = strings(&[
        "w", "--from", "b", "--data-disk", "1",
        "--mount", "tag=a,source=/x,target=/y",
        "--mount", "tag=a,source=/z,target=/w",
    ]);
    let failure = parse_vm_create_options(&same_name).unwrap_err();
    assert_eq!(failure.code, EXIT_INVALID_INPUT);
    assert_eq!(failure.message, "duplicate mount name or target: a → /w");
    let same_target = strings(&[
        "w", "--from", "b", "--data-disk", "1",
        "--mount", "tag=a,source=/x,target=/y",
        "--mount", "tag=b,source=/z,target=/y,ro",
    ]);
    let failure = parse_vm_create_options(&same_target).unwrap_err();
    assert_eq!(failure.code, EXIT_INVALID_INPUT);
    assert_eq!(failure.message, "duplicate mount name or target: b → /y");
    let two = strings(&[
        "w", "--from", "b", "--data-disk", "1",
        "--mount", "tag=a,source=/x,target=/y",
        "--mount", "tag=b,source=rel,target=/z,ro",
    ]);
    let mounts = parse_vm_create_options(&two).unwrap().mounts;
    assert_eq!(mounts.len(), 2);
    assert_eq!(mounts[1].source, "rel");
    assert!(mounts[1].read_only);
}
