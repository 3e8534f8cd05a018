use vzctl::version::{version_document, version_json, CLI_API_VERSION};

#[test]
fn version_json_matches_golden_contract() {
    assert_eq!(
        version_json("0.0.1"),
        "{\"apiVersion\":\"vzctl.dev/v1\",\"command\":\"version\",\"exit_code\":0,\"status\":\"ok\",\"summary\":{\"message\":\"vzctl 0.0.1\"},\"version\":{\"cli\":\"0.0.1\"}}"
    );
    assert_eq!(CLI_API_VERSION, "vzctl.dev/v1");
}

#[test]
fn version_json_quotes_what_it_embeds() {
    let document = version_json("1.0 \"beta\"");
    assert!(document.contains("\"message\":\"vzctl 1.0 \\\"beta\\\"\""));
    assert!(document.ends_with("\"cli\":\"1.0 \\\"beta\\\"\"}}"));
    assert_eq!(
        version_document("\"m\"", "\"c\""),
        "{\"apiVersion\":\"vzctl.dev/v1\",\"command\":\"version\",\"exit_code\":0,\"status\":\"ok\",\"summary\":{\"message\":\"m\"},\"version\":{\"cli\":\"c\"}}"
    );
}

#[test]
fn version_json_escapes_control_characters() {
    let document = version_json("a\tb\u{1}c\\");
    assert!(document.ends_with("\"cli\":\"a\\tb\\u0001c\\\\\"}}"));
}
