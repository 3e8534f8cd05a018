use vzctl::cli::{
    parse_doctor_options, parse_format_options, seal_marker_name, parse_image_bake_options, parse_min_free_gib,
    DoctorOptions, ImageBakeOptions, OutputFormat, DEFAULT_MIN_FREE_GIB, EXIT_USAGE,
};

fn args(values: &[&str]) -> Vec<String> {
    values.iter().map(|value| value.to_string()).collect()
}

#[test]
fn image_bake_reads_alias_tag_and_format() {
    let options = parse_image_bake_options(&args(&["ubuntu", "--tag", "v1.2", "--format", "json"])).unwrap();
    assert_eq!(
        options,
        ImageBakeOptions { alias: "ubuntu".into(), tag: "v1.2".into(), format: OutputFormat::Json }
    );
}

#[test]
fn image_bake_refusals() {
    let e = parse_image_bake_options(&args(&["ubuntu"])).unwrap_err();
    assert_eq!((e.code, e.message.as_str()), (EXIT_USAGE, "image bake requires --tag <tag>"));
    let e = parse_image_bake_options(&args(&["--tag", "v1"])).unwrap_err();
    assert_eq!(e.message, "usage: vzctl image bake <alias> --tag <tag> [--format human|json]");
    let e = parse_image_bake_options(&args(&["a", "b"])).unwrap_err();
    assert_eq!(e.message, "unexpected image bake argument: b");
    let e = parse_image_bake_options(&args(&["a", "--x"])).unwrap_err();
    assert_eq!(e.message, "unknown image bake option: --x");
    let e = parse_image_bake_options(&args(&["a", "--format", "xml"])).unwrap_err();
    assert_eq!(e.message, "unsupported image bake format: xml");
    let e = parse_image_bake_options(&args(&["a", "--tag", "-bad"])).unwrap_err();
    assert_eq!(e.message, "invalid image tag -bad; expected 1-64 [A-Za-z0-9][A-Za-z0-9._-]*");
}

#[test]
fn format_only_commands() {
    assert_eq!(parse_format_options(&[], "version").unwrap(), OutputFormat::Human);
    assert_eq!(parse_format_options(&args(&["--format", "json"]), "version").unwrap(), OutputFormat::Json);
    assert_eq!(
        parse_format_options(&args(&["--format", "yaml"]), "image list").unwrap_err(),
        "unsupported image list format: yaml"
    );
    assert_eq!(
        parse_format_options(&args(&["--all"]), "version").unwrap_err(),
        "unknown version option: --all"
    );
    assert_eq!(
        parse_format_options(&args(&["--format"]), "version").unwrap_err(),
        "--format requires human or json"
    );
}

#[test]
fn doctor_minimum_free_space() {
    assert_eq!(
        parse_doctor_options(&[], None).unwrap(),
        DoctorOptions { format: OutputFormat::Human, min_free_gib: DEFAULT_MIN_FREE_GIB }
    );
    assert_eq!(parse_doctor_options(&[], Some("5")).unwrap().min_free_gib, 5);
    assert_eq!(
        parse_doctor_options(&args(&["--min-free-gib", "7", "--format", "json"]), Some("5")).unwrap(),
        DoctorOptions { format: OutputFormat::Json, min_free_gib: 7 }
    );
    assert_eq!(
        parse_doctor_options(&[], Some("x")).unwrap_err(),
        "invalid minimum free space: x GiB"
    );
    assert_eq!(parse_min_free_gib("0").unwrap_err(), "minimum free space must be at least 1 GiB");
    assert_eq!(
        parse_doctor_options(&args(&["--help"]), None).unwrap_err(),
        "usage: vzctl doctor [--format human|json] [--min-free-gib N]"
    );
    assert_eq!(
        parse_doctor_options(&args(&["--min-free-gib"]), None).unwrap_err(),
        "--min-free-gib requires an integer"
    );
    assert_eq!(parse_doctor_options(&args(&["-v"]), None).unwrap_err(), "unknown doctor option: -v");
}

#[test]
fn seal_marker_names_hash_the_full_path() {
    assert_eq!(
        seal_marker_name("/images/My Image.qcow2"),
        "My-Image-97f5349ba0472adc.sealed.json"
    );
    assert_eq!(seal_marker_name("/img/a8.raw"), "a8-02b7d76527186ccb.sealed.json");
    assert_eq!(seal_marker_name("/"), "image-af63a24c860189fe.sealed.json");
}

#[test]
fn doctor_options_default_to_human_and_twenty_gib() {
    assert_eq!(
        parse_doctor_options(&[], None).unwrap(),
        DoctorOptions { format: OutputFormat::Human, min_free_gib: 20 }
    );
}

#[test]
fn doctor_options_accept_json_and_disk_override() {
    let args = args(&["--format", "json", "--min-free-gib", "42"]);
    assert_eq!(
        parse_doctor_options(&args, None).unwrap(),
        DoctorOptions { format: OutputFormat::Json, min_free_gib: 42 }
    );
}
