use vzctl::stack::{
    parse_init, parse_mount_add, parse_mount_remove, parse_named_remove, parse_net_add,
    parse_vm_add, parse_volume_add, requested_format, Format, NetworkBackend, NetworkMode,
    EXIT_INVALID, EXIT_USAGE,
};

fn args(values: &[&str]) -> Vec<String> {
    values.iter().map(|value| value.to_string()).collect()
}

#[test]
fn init_reads_directory_name_and_defaults() {
    let options = parse_init(&args(&["demo", "--name", "edge", "--force"])).unwrap();
    assert_eq!(options.directory, "demo");
    assert_eq!(options.name, "edge");
    assert_eq!(options.cidr, "10.80.0.0/24");
    assert!(options.force);
    assert_eq!(options.format, Format::Human);
    let failure = parse_init(&args(&["demo"])).unwrap_err();
    assert_eq!((failure.code, failure.message.as_str()), (EXIT_USAGE, "--name is required"));
}

#[test]
fn vm_add_reads_options_and_checks_values() {
    let options = parse_vm_add(&args(&[
        "web", "--from", "debian", "--cpus", "4", "--role", "docker", "--data-disk", "8G",
    ]))
    .unwrap();
    assert_eq!(options.name, "web");
    assert_eq!(options.vm.from_image, "debian");
    assert_eq!(options.vm.cpus, Some(4));
    assert_eq!(options.vm.roles, vec!["docker"]);
    assert_eq!(options.vm.disk, "8G");
    let defaults = parse_vm_add(&args(&["web"])).unwrap();
    assert_eq!(defaults.vm.from_image, "ubuntu-base");
    assert_eq!(defaults.vm.disk, "4G");
    let failure = parse_vm_add(&args(&["web", "--role", "db"])).unwrap_err();
    assert_eq!((failure.code, failure.message.as_str()), (EXIT_INVALID, "--role must be router or docker"));
    let failure = parse_vm_add(&args(&["web", "--cpus", "x"])).unwrap_err();
    assert_eq!(failure.message, "--cpus must be a positive integer");
    assert_eq!(parse_vm_add(&args(&["a", "b"])).unwrap_err().message, "stack vm add accepts only one VM name");
}

#[test]
fn net_add_reads_mode_backend_and_egress() {
    let options = parse_net_add(&args(&["lan", "--cidr", "10.70.0.0/24", "--mode", "host"])).unwrap();
    assert_eq!(options.name, "lan");
    assert_eq!(options.cidr, "10.70.0.0/24");
    assert_eq!(options.mode, NetworkMode::Host);
    assert_eq!(options.backend, NetworkBackend::Vmnet);
    assert!(options.nat_egress);
    let docker = parse_net_add(&args(&["d", "--cidr", "10.9.0.0/24", "--backend", "docker", "--nat-egress"])).unwrap();
    assert_eq!(docker.backend, NetworkBackend::Docker);
    assert!(!docker.nat_egress);
    let no_nat = parse_net_add(&args(&["n", "--cidr", "10.9.0.0/24", "--no-nat-egress", "-C", "stack"])).unwrap();
    assert!(!no_nat.nat_egress);
    assert_eq!(no_nat.config, "stack");
}

#[test]
fn net_add_refusals() {
    let message = |values: &[&str]| parse_net_add(&args(values)).unwrap_err();
    assert_eq!(message(&["--cidr", "10.0.0.0/24"]).message, "stack net add requires a network name");
    assert_eq!(message(&["lan"]).message, "--cidr is required");
    let failure = message(&["lan", "--cidr", "x", "--mode", "bridged"]);
    assert_eq!((failure.code, failure.message.as_str()), (EXIT_INVALID, "--mode must be shared or host"));
    assert_eq!(message(&["lan", "--backend", "x"]).message, "--backend must be vmnet or docker");
    assert_eq!(message(&["lan", "--backend"]).message, "--backend requires vmnet or docker");
    assert_eq!(message(&["lan", "--mode"]).message, "--mode requires shared or host");
    assert_eq!(message(&["lan", "--cidr"]).message, "--cidr requires a value");
    assert_eq!(message(&["lan", "--zz"]).message, "unknown stack net add option: --zz");
    assert_eq!(message(&["a", "b"]).message, "stack net add accepts only one network name");
    assert_eq!(message(&["a", "--format", "xml"]).message, "--format requires human or json");
}

#[test]
fn volume_add_takes_name_and_path() {
    let options = parse_volume_add(&args(&["data", "./data", "--format", "json"])).unwrap();
    assert_eq!((options.name.as_str(), options.path.as_str()), ("data", "./data"));
    assert_eq!(options.format, Format::Json);
    assert_eq!(options.config, ".");
    let message = |values: &[&str]| parse_volume_add(&args(values)).unwrap_err().message;
    assert_eq!(message(&[]), "stack volume add requires a volume name");
    assert_eq!(message(&["data"]), "stack volume add requires a path");
    assert_eq!(message(&["a", "b", "c"]), "stack volume add accepts only NAME PATH");
    assert_eq!(message(&["a", "-x"]), "unknown stack volume add option: -x");
}

#[test]
fn mount_add_and_remove() {
    let options = parse_mount_add(&args(&["web", "--source", "./src", "--target", "/srv", "--read-only"])).unwrap();
    assert_eq!(options.vm, "web");
    assert_eq!(options.source.as_deref(), Some("./src"));
    assert_eq!(options.target, "/srv");
    assert!(options.read_only);
    let message = |values: &[&str]| parse_mount_add(&args(values)).unwrap_err().message;
    assert_eq!(message(&["--target", "/srv"]), "stack mount add requires a VM name");
    assert_eq!(message(&["web", "--target", "/srv"]), "--source is required");
    assert_eq!(message(&["web", "--source", "s"]), "--target is required");
    assert_eq!(message(&["web", "x"]), "stack mount add accepts only one VM name");
    let removal = parse_mount_remove(&args(&["web", "--target", "/srv"])).unwrap();
    assert_eq!((removal.vm.as_str(), removal.target.as_str()), ("web", "/srv"));
    assert_eq!(removal.source, None);
    assert_eq!(
        parse_mount_remove(&args(&["web", "--source", "s"])).unwrap_err().message,
        "unknown stack mount remove option: --source"
    );
    assert_eq!(
        parse_mount_remove(&args(&["web"])).unwrap_err().message,
        "--target is required"
    );
}

#[test]
fn named_removal_and_requested_format() {
    let options = parse_named_remove(&args(&["web", "-C", "stack"]), "stack vm remove").unwrap();
    assert_eq!((options.name.as_str(), options.config.as_str()), ("web", "stack"));
    assert_eq!(
        parse_named_remove(&args(&[]), "stack vm remove").unwrap_err().message,
        "stack vm remove requires a name"
    );
    assert_eq!(requested_format(&args(&["x", "--format", "json"])), Format::Json);
    assert_eq!(requested_format(&args(&["--format"])), Format::Human);
}
