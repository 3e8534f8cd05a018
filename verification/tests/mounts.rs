use vzctl::mounts::{
    default_mount_name, docker_project_mount_flag, parse_mount_flag, valid_volume_name,
    validate_resolved_mount, DOCKER_PROJECT_MOUNT_TAG,
};

#[test]
fn parse_mount_flag_requires_source_and_target() {
    let mount = parse_mount_flag("tag=web-src,source=/tmp,target=/srv/app").unwrap();
    assert_eq!(mount.name, "web-src");
    assert_eq!(mount.target, "/srv/app");
    assert!(!mount.read_only);
}

#[test]
fn parse_mount_flag_accepts_ro() {
    let mount = parse_mount_flag("source=/tmp,target=/srv/app,ro").unwrap();
    assert!(mount.read_only);
    assert_eq!(mount.name, "tmp");
}

#[test]
fn rejects_reserved_device_tag() {
    let error = parse_mount_flag("tag=vzctl,source=/tmp,target=/srv/app").unwrap_err();
    assert!(error.contains("reserved"));
}

#[test]
fn missing_source_and_target_are_refused_in_order() {
    assert_eq!(
        parse_mount_flag("target=/srv/app").unwrap_err(),
        " --mount requires source=…"
    );
    assert_eq!(
        parse_mount_flag("source=/tmp").unwrap_err(),
        "--mount requires target=…"
    );
}

#[test]
fn malformed_fragments_and_keys_are_refused() {
    assert_eq!(
        parse_mount_flag("source=/tmp,target=/srv,bogus").unwrap_err(),
        "invalid --mount fragment \"bogus\"; expected key=value"
    );
    assert_eq!(
        parse_mount_flag("source=/tmp,mode=x,target=/srv").unwrap_err(),
        "unknown --mount key \"mode\""
    );
}

#[test]
fn read_only_key_takes_a_truth_value_and_blank_fragments_are_skipped() {
    let mount = parse_mount_flag(" source=/data/x , target=/srv/x ,, read_only=yes").unwrap();
    assert!(mount.read_only);
    assert_eq!(mount.source, "/data/x");
    assert_eq!(mount.name, "x");
    let mount = parse_mount_flag("source=/data/x,target=/srv/x,ro,readOnly=no").unwrap();
    assert!(!mount.read_only);
}

#[test]
fn target_must_be_absolute_and_not_root() {
    assert_eq!(
        parse_mount_flag("source=/tmp,target=/").unwrap_err(),
        "mount target must be an absolute path (not /)"
    );
    assert_eq!(
        parse_mount_flag("source=/tmp,target=srv").unwrap_err(),
        "mount target must be an absolute path (not /)"
    );
}

#[test]
fn default_name_is_sanitized_last_component() {
    assert_eq!(default_mount_name("/home/me/my project.d").unwrap(), "my_project_d");
    assert_eq!(default_mount_name("/srv/app/").unwrap(), "app");
    assert_eq!(
        default_mount_name("/").unwrap_err(),
        "cannot derive mount name from source path"
    );
    assert_eq!(
        default_mount_name("/srv/_hidden").unwrap_err(),
        "derived mount name \"_hidden\" is invalid; pass tag=… explicitly"
    );
}

#[test]
fn volume_names_follow_the_documented_pattern() {
    assert!(valid_volume_name("a"));
    assert!(valid_volume_name("Web_src-2"));
    assert!(!valid_volume_name(""));
    assert!(!valid_volume_name("-web"));
    assert!(!valid_volume_name("web.src"));
    assert!(valid_volume_name(&"a".repeat(36)));
    assert!(!valid_volume_name(&"a".repeat(37)));
    assert_eq!(
        validate_resolved_mount("bad name", "/tmp", "/srv").unwrap_err(),
        "mount name \"bad name\" must be 1-36 chars [A-Za-z0-9][A-Za-z0-9_-]*"
    );
    assert_eq!(
        validate_resolved_mount("web", "", "/srv").unwrap_err(),
        "mount source must not be empty"
    );
}

#[test]
fn project_mount_flag_uses_same_path() {
    let flag = docker_project_mount_flag("/Users/me/stack").unwrap();
    assert_eq!(
        flag,
        format!("tag={DOCKER_PROJECT_MOUNT_TAG},source=/Users/me/stack,target=/Users/me/stack")
    );
    assert_eq!(
        docker_project_mount_flag("/").unwrap_err(),
        "project dir / is not a usable absolute mount target"
    );
}
