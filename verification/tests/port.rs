use vzctl::port::{parse_list_options, Format};

fn strings(values: &[&str]) -> Vec<String> {
    values.iter().map(|value| value.to_string()).collect()
}

#[test]
fn port_list_reads_filters_and_format() {
    assert_eq!(parse_list_options(&[]).unwrap(), (Format::Human, None, None));
    assert_eq!(
        parse_list_options(&strings(&["--stack", "dev", "--format", "json", "--project", "demo"])).unwrap(),
        (Format::Json, Some("demo".to_string()), Some("dev".to_string()))
    );
}

#[test]
fn port_list_refuses_bad_options() {
    assert_eq!(
        parse_list_options(&strings(&["--format", "yaml"])).unwrap_err(),
        "unsupported port list format: yaml"
    );
    assert_eq!(
        parse_list_options(&strings(&["--format"])).unwrap_err(),
        "--format requires human or json"
    );
    assert_eq!(
        parse_list_options(&strings(&["--stack", ""])).unwrap_err(),
        "--stack requires a value"
    );
    assert_eq!(
        parse_list_options(&strings(&["--project"])).unwrap_err(),
        "--project requires a value"
    );
    assert_eq!(
        parse_list_options(&strings(&["--all"])).unwrap_err(),
        "unknown port list option: --all"
    );
}
