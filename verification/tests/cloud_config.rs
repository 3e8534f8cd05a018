use vzctl::cli::base64url_unpadded;
use vzctl::cloud_config::{agent_token, cloud_config, CaFile, GuestAssets, RunCommand};
use vzctl::json::json_text;
use vzctl::user_data::{cloud_init_user_data, config_document, user_data_text};
use vzctl::network::VmNetworkSelection;
use vzctl::vm::{
    cloud_init_root_password_snippet, nic_plan, parse_vm_create_options, root_disk_minimum, root_password_snippet,
    DOCKER_ROOT_MIN_BYTES, VmIdentity,
};

fn strings(values: &[&str]) -> Vec<String> {
    values.iter().map(|value| value.to_string()).collect()
}

fn assets() -> GuestAssets {
    GuestAssets {
        virtiofs_bind: "#!/bin/sh\nbind\n".to_string(),
        router_apply: "#!/bin/sh\napply\n".to_string(),
        agent_unit: "[Unit]\n".to_string(),
    }
}

fn identity() -> VmIdentity {
    VmIdentity {
        instance_id: "vzctl-web".to_string(),
        hostname: "web".to_string(),
        fqdn: "web.edge-dmz.vz.test".to_string(),
        mac_addresses: vec!["52:54:00:00:00:01".to_string()],
    }
}

fn argv(command: &RunCommand) -> Vec<String> {
    match command {
        RunCommand::Argv(words) => words.clone(),
        RunCommand::Shell(line) => vec![line.clone()],
    }
}

#[test]
fn vm_create_accepts_root_password_flag() {
    let args = strings(&["web", "--from", "ubuntu-base", "--data-disk", "4", "--root-password", "s3cret!"]);
    let options = parse_vm_create_options(&args).unwrap();
    assert_eq!(options.root_password.as_deref(), Some("s3cret!"));
    let snippet = cloud_init_root_password_snippet("s3cret!");
    assert!(snippet.contains("disable_root: false"));
    assert!(snippet.contains("ssh_pwauth: true"));
    assert!(snippet.contains("name: root"));
    assert!(snippet.contains("type: text"));
    assert!(snippet.contains("s3cret!"));
}

#[test]
fn root_password_snippet_is_exact() {
    assert_eq!(
        root_password_snippet("pw", Some("'pw'\n")),
        "disable_root: false\nssh_pwauth: true\nchpasswd:\n  expire: false\n  users:\n    - name: root\n      password: 'pw'\n      type: text\n"
    );
    assert!(root_password_snippet("a b", None).contains("      password: \"a b\"\n"));
    assert!(cloud_init_root_password_snippet("true").contains("password: 'true'\n"));
}

#[test]
fn agent_token_is_unpadded_base64url() {
    let random = [0xfbu8; 32];
    let token = agent_token(&random);
    assert_eq!(token, base64url_unpadded(&random));
    assert_eq!(token.len(), 43);
    assert!(!token.contains('=') && !token.contains('+') && !token.contains('/'));
}

#[test]
fn plain_vm_gets_agent_files_and_restart() {
    let config = cloud_config("tok", &assets(), None, &strings(&["docker"]), None, &identity());
    assert!(config.root_password.is_none());
    let paths: Vec<_> = config.write_files.iter().map(|f| f.path.as_str()).collect();
    assert_eq!(
        paths,
        vec![
            "/var/lib/vzctl/agent.token",
            "/usr/local/lib/vzctl/virtiofs-bind",
            "/etc/sudoers.d/vzctl-virtiofs",
            "/usr/local/lib/vzctl/router-apply",
            "/etc/sudoers.d/vzctl-router",
            "/etc/sudoers.d/vzctl-agent",
            "/etc/systemd/system/vzctl-agent.service",
        ]
    );
    let token = &config.write_files[0];
    assert_eq!(token.owner.as_deref(), Some("vzctl-agent:vzctl-agent"));
    assert_eq!(token.permissions, "0600");
    assert_eq!(token.content, "tok\n");
    assert_eq!(config.write_files[1].content, "#!/bin/sh\nbind\n");
    assert_eq!(config.write_files[1].permissions, "0755");
    assert_eq!(config.write_files[5].content, "vzctl-agent ALL=(ALL) NOPASSWD:ALL\n");
    assert_eq!(config.runcmd.len(), 2);
    assert_eq!(argv(&config.runcmd[0]), vec!["systemctl", "daemon-reload"]);
    assert_eq!(argv(&config.runcmd[1]), vec!["systemctl", "restart", "vzctl-agent.service"]);
}

#[test]
fn router_with_ca_and_password() {
    let ca = vec![
        CaFile { path: "/usr/local/share/ca-certificates/vzctl.crt".to_string(), permissions: None, content: "PEM".to_string() },
        CaFile { path: "/etc/vzctl/ca.json".to_string(), permissions: Some("0600".to_string()), content: "{}".to_string() },
    ];
    let config = cloud_config("tok", &assets(), Some(&ca), &strings(&["router"]), Some("pw"), &identity());
    assert_eq!(config.root_password.as_deref(), Some("pw"));
    assert_eq!(config.write_files.len(), 11);
    let crt = &config.write_files[7];
    assert_eq!(crt.path, "/usr/local/share/ca-certificates/vzctl.crt");
    assert_eq!(crt.owner, None);
    assert_eq!(crt.permissions, "0644");
    assert_eq!(config.write_files[8].permissions, "0600");
    assert_eq!(config.write_files[9].path, "/etc/sudoers.d/vzctl-ca");
    assert_eq!(config.write_files[9].permissions, "0440");
    let sysctl = &config.write_files[10];
    assert_eq!(sysctl.path, "/etc/sysctl.d/90-vzctl-router.conf");
    assert_eq!(sysctl.content, "net.ipv4.ip_forward=1\n");
    assert_eq!(config.runcmd.len(), 4);
    assert!(matches!(&config.runcmd[2], RunCommand::Shell(line) if line == "sysctl --system"));
    assert_eq!(
        argv(&config.runcmd[3]),
        vec!["sh", "-c", "command -v iptables >/dev/null && iptables -P FORWARD DROP || true"]
    );
}

fn selection(network: &str, ip: &str, prefix: u8, backend: &str) -> VmNetworkSelection {
    VmNetworkSelection {
        network: network.to_string(),
        cidr: format!("{ip}/{prefix}"),
        ip: ip.to_string(),
        gateway: "10.0.0.1".to_string(),
        dns: "10.0.0.1".to_string(),
        project: None,
        prefix,
        automatic: false,
        created: false,
        backend: backend.to_string(),
    }
}

#[test]
fn docker_networks_get_no_nic_but_the_bridge() {
    let networks = vec![
        selection("containers", "172.30.0.1", 16, "docker"),
        selection("lan", "10.90.0.10", 24, "vmnet"),
        selection("more", "172.31.0.1", 16, "docker"),
        selection("wan", "10.91.0.10", 24, "vmnet"),
    ];
    let plan = nic_plan(&networks, &None);
    let names: Vec<_> = plan.nics.iter().map(|n| n.network.as_str()).collect();
    assert_eq!(names, vec!["lan", "wan"]);
    assert_eq!(plan.docker_bip.as_deref(), Some("172.30.0.1/16"));
    assert_eq!(plan.nic_count, 2);

    let single = nic_plan(&[], &Some(selection("lan", "10.90.0.10", 24, "vmnet")));
    assert_eq!(single.nics.len(), 1);
    assert_eq!(single.docker_bip, None);
    assert_eq!(single.nic_count, 1);

    let none = nic_plan(&[], &None);
    assert!(none.nics.is_empty());
    assert_eq!(none.nic_count, 1);

    let only_docker = nic_plan(&[selection("containers", "172.30.0.1", 16, "docker")], &None);
    assert!(only_docker.nics.is_empty());
    assert_eq!(only_docker.nic_count, 1);
}

#[test]
fn docker_role_needs_a_larger_root_disk() {
    assert_eq!(root_disk_minimum(&strings(&["router", "docker"])), Some(DOCKER_ROOT_MIN_BYTES));
    assert_eq!(DOCKER_ROOT_MIN_BYTES, 8 * 1024 * 1024 * 1024);
    assert_eq!(root_disk_minimum(&strings(&["router"])), None);
}

#[test]
fn cloud_config_names_the_host_and_renews_ssh_keys() {
    let config = cloud_config("tok", &assets(), None, &strings(&[]), None, &identity());
    assert!(!config.preserve_hostname);
    assert_eq!(config.hostname, "web");
    assert_eq!(config.fqdn, "web.edge-dmz.vz.test");
    assert!(config.prefer_fqdn_over_hostname);
    assert!(config.manage_etc_hosts);
    assert!(config.ssh_deletekeys);
    assert_eq!(config.ssh_genkeytypes, vec!["ed25519".to_string(), "rsa".to_string()]);
}

#[test]
fn router_role_persists_manifest_and_cloud_init_forwarding() {
    let assets = GuestAssets {
        virtiofs_bind: "#!/bin/sh\nmount -t virtiofs vzctl /mnt\n".to_string(),
        router_apply: "#!/bin/sh\napply\n".to_string(),
        agent_unit: "[Service]\nNoNewPrivileges=no\nExecStart=/usr/local/bin/vzctl-agent\n".to_string(),
    };
    let config = cloud_config("tok", &assets, None, &strings(&["router"]), None, &identity());
    let user_data = cloud_init_user_data(&config).unwrap();
    assert!(user_data.starts_with("#cloud-config\npreserve_hostname: false\nhostname: web\n"));
    assert!(user_data.contains("fqdn: web.edge-dmz.vz.test\n"));
    assert!(user_data.contains("ssh_deletekeys: true\nssh_genkeytypes:\n- ed25519\n- rsa\n"));
    for needle in [
        "/etc/sysctl.d/90-vzctl-router.conf",
        "net.ipv4.ip_forward=1",
        "iptables -P FORWARD DROP",
        "/usr/local/lib/vzctl/virtiofs-bind",
        "NoNewPrivileges=no",
    ] {
        assert!(user_data.contains(needle), "missing {needle}");
    }
    assert!(!user_data.contains("chpasswd"));
    let parsed: serde_yaml::Value = serde_yaml::from_str(&user_data).unwrap();
    assert_eq!(parsed["hostname"].as_str(), Some("web"));
    assert_eq!(parsed["ssh_deletekeys"].as_bool(), Some(true));
    assert_eq!(parsed["ssh_genkeytypes"][1].as_str(), Some("rsa"));
    assert_eq!(parsed["write_files"][0]["path"].as_str(), Some("/var/lib/vzctl/agent.token"));
    assert_eq!(parsed["write_files"][0]["permissions"].as_str(), Some("0600"));
    assert_eq!(parsed["write_files"][0]["content"].as_str(), Some("tok\n"));
    let unit = parsed["write_files"]
        .as_sequence()
        .unwrap()
        .iter()
        .find(|f| f["path"].as_str() == Some("/etc/systemd/system/vzctl-agent.service"))
        .unwrap();
    assert_eq!(unit["content"].as_str(), Some(assets.agent_unit.as_str()));
    let runcmd = parsed["runcmd"].as_sequence().unwrap();
    assert_eq!(runcmd[0][0].as_str(), Some("systemctl"));
    assert_eq!(runcmd[2].as_str(), Some("sysctl --system"));
    assert_eq!(
        runcmd[3][2].as_str(),
        Some("command -v iptables >/dev/null && iptables -P FORWARD DROP || true")
    );
}

#[test]
fn user_data_with_root_password_is_valid_yaml() {
    let config = cloud_config("tok", &assets(), None, &strings(&[]), Some("s3cret: yes"), &identity());
    let user_data = cloud_init_user_data(&config).unwrap();
    let parsed: serde_yaml::Value = serde_yaml::from_str(&user_data).unwrap();
    assert_eq!(parsed["disable_root"].as_bool(), Some(false));
    assert_eq!(parsed["chpasswd"]["users"][0]["name"].as_str(), Some("root"));
    assert_eq!(parsed["chpasswd"]["users"][0]["password"].as_str(), Some("s3cret: yes"));
    assert_eq!(parsed["chpasswd"]["users"][0]["type"].as_str(), Some("text"));
}

#[test]
fn config_document_keeps_cloud_init_order() {
    let mut config = cloud_config("tok", &assets(), None, &strings(&[]), None, &identity());
    config.write_files.truncate(1);
    config.runcmd.clear();
    assert_eq!(
        json_text(&config_document(&config)),
        r#"{"preserve_hostname":false,"hostname":"web","fqdn":"web.edge-dmz.vz.test","prefer_fqdn_over_hostname":true,"manage_etc_hosts":true,"ssh_deletekeys":true,"ssh_genkeytypes":["ed25519","rsa"],"write_files":[{"path":"/var/lib/vzctl/agent.token","owner":"vzctl-agent:vzctl-agent","permissions":"0600","content":"tok\n"}]}"#
    );
    assert_eq!(user_data_text("a: 1\n"), "#cloud-config\na: 1\n");
}
