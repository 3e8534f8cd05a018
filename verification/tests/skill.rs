use vzctl::skill::{parse_action, Action};

#[test]
fn parse_print_with_no_args() {
    assert_eq!(parse_action(&Vec::<String>::new()).unwrap(), Action::Print);
}

#[test]
fn parse_install_flags() {
    assert_eq!(
        parse_action(&["--install-local".to_string()]).unwrap(),
        Action::InstallLocal
    );
    assert_eq!(
        parse_action(&["--install-global".to_string()]).unwrap(),
        Action::InstallGlobal
    );
}

#[test]
fn parse_rejects_both_install_flags() {
    let error = parse_action(&["--install-local".to_string(), "--install-global".to_string()])
        .unwrap_err();
    assert!(error.contains("--install-local"));
}

#[test]
fn parse_help_wins_over_install() {
    assert_eq!(
        parse_action(&["--install-local".to_string(), "--help".to_string()]).unwrap(),
        Action::Help
    );
}

#[test]
fn parse_rejects_unknown_skill_option() {
    assert_eq!(
        parse_action(&["--bogus".to_string()]).unwrap_err(),
        "unknown skill option: --bogus"
    );
}
