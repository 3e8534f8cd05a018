use vzctl::route::{
    parse, requested_format, validate_policies, Action, AllowRule, Format, Policy, EXIT_INVALID, EXIT_USAGE,
};

fn strings(values: &[&str]) -> Vec<String> {
    values.iter().map(|value| value.to_string()).collect()
}

#[test]
fn parses_policy_operations() {
    let options = parse(&strings(&[
        "plan",
        "--config",
        "edge.yaml",
        "--router",
        "edge-router",
        "--format",
        "json",
    ]))
    .unwrap();
    assert_eq!(options.action, Action::Plan);
    assert_eq!(options.router, Some("edge-router".to_string()));
    assert_eq!(options.config, Some("edge.yaml".to_string()));
    assert_eq!(options.format, Format::Json);
}

#[test]
fn status_does_not_take_a_config() {
    let failure = parse(&strings(&["status", "--config", "x.yaml"])).unwrap_err();
    assert_eq!(failure.code, EXIT_USAGE);
    assert_eq!(failure.message, "unknown route option: --config");
    let twice = parse(&strings(&["apply", "--router", "a", "--router", "b"])).unwrap_err();
    assert_eq!(twice.message, "--router may only be used once");
    assert!(parse(&strings(&[])).is_err());
}

#[test]
fn requested_format_looks_for_json() {
    assert_eq!(requested_format(&strings(&["x", "--format", "json"])), Format::Json);
    assert_eq!(requested_format(&strings(&["--format", "human"])), Format::Human);
    assert_eq!(requested_format(&strings(&["--format"])), Format::Human);
}

fn rule(to: &str, proto: &str, ports: Option<Vec<Option<u64>>>) -> Option<AllowRule> {
    Some(AllowRule { to: Some(to.into()), proto: Some(proto.into()), ports })
}

fn policy(name: &str, allow: Vec<Option<AllowRule>>) -> Option<Policy> {
    Some(Policy {
        name: Some(name.into()),
        network: Some("dmz".into()),
        forward: Some("deny-all".into()),
        allow: Some(allow),
    })
}

#[test]
fn extracts_and_validates_full_environment_policies() {
    let policies = Some(vec![policy(
        "dmz-default",
        vec![rule("lan", "tcp", Some(vec![Some(5432)])), rule("dmz", "icmp", None)],
    )]);
    validate_policies(&policies).unwrap();
}

#[test]
fn rejects_ports_for_icmp() {
    let policies = Some(vec![policy("bad", vec![rule("lan", "icmp", Some(vec![Some(80)]))])]);
    assert_eq!(validate_policies(&policies).unwrap_err().code, EXIT_INVALID);
}

#[test]
fn policy_refusals_name_the_problem() {
    let message = |policies: Option<Vec<Option<Policy>>>| validate_policies(&policies).unwrap_err().message;
    assert_eq!(message(None), "policies must be an array");
    assert_eq!(message(Some(vec![None])), "each policy must be an object");
    assert_eq!(
        message(Some(vec![policy("a b", vec![])])),
        "policy name may only contain letters, digits, dot, dash, and underscore"
    );
    assert_eq!(
        message(Some(vec![policy("p", vec![]), policy("p", vec![])])),
        "policy names must be unique"
    );
    let mut open = policy("p", vec![]).unwrap();
    open.forward = Some("allow-all".into());
    assert_eq!(message(Some(vec![Some(open)])), "policy p forward must be deny-all");
    let mut unnamed = policy("p", vec![]).unwrap();
    unnamed.name = Some(String::new());
    assert_eq!(message(Some(vec![Some(unnamed)])), "policy name must be a string");
    assert_eq!(
        message(Some(vec![policy("p", vec![rule("lan", "sctp", Some(vec![Some(1)]))])])),
        "policy p proto must be tcp, udp, or icmp"
    );
    assert_eq!(
        message(Some(vec![policy("p", vec![rule("lan", "udp", None)])])),
        "policy p TCP/UDP allow requires ports"
    );
    assert_eq!(
        message(Some(vec![policy("p", vec![rule("lan", "tcp", Some(vec![Some(0)]))])])),
        "policy p port must be 1...65535"
    );
    assert_eq!(
        message(Some(vec![policy("p", vec![rule("lan", "tcp", Some(vec![None]))])])),
        "policy p port must be 1...65535"
    );
    assert_eq!(message(Some(vec![policy("p", vec![None])])), "invalid allow rule in policy p");
    validate_policies(&Some(vec![])).unwrap();
}
