use vzctl::oidc::{
    auto_clients, merge_uplink, missing_secret_message, parse_format, render_connector_block, render_dex_config,
    secret_for, secret_ref, uplink_type_str, with_secret, yaml_string, DexClient, Format, OidcUplink,
    OidcUplinkType, PasswordFile, ResolvedUplink, SecretRef, UplinkSource,
};

fn strings(values: &[&str]) -> Vec<String> {
    values.iter().map(|value| value.to_string()).collect()
}

fn sample_clients() -> Vec<DexClient> {
    vec![DexClient {
        id: Some("web".into()),
        name: Some("web".into()),
        secret: Some("sec".into()),
        redirect_uris: vec!["https://web.svc.example.vz.test/oauth2/callback".into()],
    }]
}

fn settings(client_id: Option<&str>, issuer: Option<&str>) -> OidcUplink {
    OidcUplink {
        uplink_type: Some(OidcUplinkType::Oidc),
        issuer: issuer.map(String::from),
        tenant: None,
        client_id: client_id.map(String::from),
        client_secret_file: None,
        scopes: None,
        get_user_info: None,
    }
}

fn oidc_uplink(scopes: &[&str], get_user_info: bool) -> ResolvedUplink {
    ResolvedUplink {
        uplink_type: OidcUplinkType::Oidc,
        issuer: Some("https://login.example.com".into()),
        tenant: None,
        client_id: "vzctl-dex".into(),
        client_secret: "s3cret".into(),
        scopes: strings(scopes),
        get_user_info,
        source: UplinkSource::Host,
    }
}

#[test]
fn merge_host_only_resolves_secret() {
    let host = OidcUplink {
        client_secret_file: Some("client-secret".into()),
        get_user_info: Some(true),
        ..settings(Some("vzctl-dex"), Some("https://login.example.com"))
    };
    let merged = merge_uplink(Some(&host), None).unwrap().unwrap();
    assert_eq!(secret_ref(None), SecretRef::Host);
    let resolved = with_secret(merged, "/state/config/oidc/client-secret", "host-secret\n").unwrap();
    assert_eq!(resolved.issuer.as_deref(), Some("https://login.example.com"));
    assert_eq!(resolved.client_id, "vzctl-dex");
    assert_eq!(resolved.client_secret, "host-secret");
    assert_eq!(resolved.source, UplinkSource::Host);
    assert_eq!(resolved.scopes, vec!["openid", "profile", "email"]);
}

#[test]
fn merge_project_overrides_host_fields() {
    let host = OidcUplink {
        client_secret_file: Some("client-secret".into()),
        scopes: Some(vec!["openid".into()]),
        get_user_info: Some(false),
        ..settings(Some("vzctl-dex"), Some("https://login.example.com"))
    };
    let project = OidcUplink {
        client_secret_file: Some("host".into()),
        ..settings(Some("edge-dmz-dex"), Some("https://login.corp.example"))
    };
    assert_eq!(secret_ref(Some(&project)), SecretRef::Host);
    let merged = merge_uplink(Some(&host), Some(&project)).unwrap().unwrap();
    let resolved = with_secret(merged, "/state/config/oidc/client-secret", "host-secret").unwrap();
    assert_eq!(resolved.issuer.as_deref(), Some("https://login.corp.example"));
    assert_eq!(resolved.client_id, "edge-dmz-dex");
    assert_eq!(resolved.client_secret, "host-secret");
    assert_eq!(resolved.source, UplinkSource::Merged);
    assert_eq!(resolved.scopes, vec!["openid"]);
    assert!(!resolved.get_user_info);
}

#[test]
fn merge_project_secret_file() {
    let project = OidcUplink {
        client_secret_file: Some("uplink-secret".into()),
        ..settings(Some("edge"), Some("https://login.corp.example"))
    };
    assert_eq!(
        secret_ref(Some(&project)),
        SecretRef::ProjectRelative("uplink-secret".into())
    );
    let merged = merge_uplink(None, Some(&project)).unwrap().unwrap();
    let resolved = with_secret(merged, "uplink-secret", "project-secret").unwrap();
    assert_eq!(resolved.client_secret, "project-secret");
    assert_eq!(resolved.source, UplinkSource::Project);
}

#[test]
fn merge_incomplete_errors() {
    let host = settings(None, Some("https://login.example.com"));
    let err = merge_uplink(Some(&host), None).unwrap_err();
    assert!(err.contains("clientID"));
}

#[test]
fn merge_without_settings_has_no_uplink() {
    assert!(merge_uplink(None, None).unwrap().is_none());
}

#[test]
fn merge_checks_issuer_and_defaults_per_type() {
    let plain = settings(Some("id"), Some("http://login.example.com"));
    assert_eq!(
        merge_uplink(Some(&plain), None).unwrap_err(),
        "oidc uplink issuer must be https:// (got \"http://login.example.com\")"
    );
    let no_issuer = settings(Some("id"), None);
    assert_eq!(
        merge_uplink(Some(&no_issuer), None).unwrap_err(),
        "oidc uplink incomplete: issuer required for type: oidc"
    );
    let microsoft = OidcUplink {
        uplink_type: Some(OidcUplinkType::Microsoft),
        ..settings(Some("ms-app"), None)
    };
    let merged = merge_uplink(None, Some(&microsoft)).unwrap().unwrap();
    assert_eq!(merged.tenant.as_deref(), Some("common"));
    assert_eq!(merged.issuer, None);
    let github = OidcUplink {
        uplink_type: Some(OidcUplinkType::Github),
        issuer: Some("ignored".into()),
        ..settings(Some("gh"), None)
    };
    let merged = merge_uplink(Some(&github), None).unwrap().unwrap();
    assert_eq!(merged.scopes, vec!["read:user", "user:email"]);
    assert_eq!(merged.issuer, None);
    let empty_project = OidcUplink {
        uplink_type: None,
        ..settings(Some(""), Some(""))
    };
    let host = settings(Some("host-id"), Some("https://host.example"));
    let merged = merge_uplink(Some(&host), Some(&empty_project)).unwrap().unwrap();
    assert_eq!(merged.client_id, "host-id");
    assert_eq!(merged.issuer.as_deref(), Some("https://host.example"));
}

#[test]
fn secret_refs_and_missing_messages() {
    let absolute = OidcUplink {
        client_secret_file: Some("/etc/secret".into()),
        ..settings(None, None)
    };
    let reference = secret_ref(Some(&absolute));
    assert_eq!(reference, SecretRef::Absolute("/etc/secret".into()));
    assert_eq!(
        missing_secret_message(&reference, "/etc/secret"),
        "oidc uplink secret missing: /etc/secret"
    );
    assert_eq!(
        missing_secret_message(&SecretRef::Host, "/s/config/oidc/client-secret"),
        "oidc uplink secret missing: /s/config/oidc/client-secret (configure host client secret in Settings)"
    );
    assert_eq!(
        missing_secret_message(&SecretRef::ProjectRelative("x".into()), "/s/projects/p/oidc/x"),
        "oidc uplink secret missing: /s/projects/p/oidc/x (or set clientSecretFile: host)"
    );
    let merged = merge_uplink(Some(&settings(Some("id"), Some("https://a"))), None)
        .unwrap()
        .unwrap();
    assert_eq!(
        with_secret(merged, "/s/secret", "  \n").unwrap_err(),
        "oidc uplink secret file is empty: /s/secret"
    );
}

#[test]
fn render_without_uplink_keeps_password_db() {
    let yaml = render_dex_config(
        "https://auth.svc.p.vz.test",
        "127.0.0.1:5556",
        &sample_clients(),
        &PasswordFile::Absent,
        "/state",
        None,
    )
    .unwrap();
    assert!(yaml.contains("enablePasswordDB: true"));
    assert!(yaml.contains("admin@vzctl.local"));
    assert!(!yaml.contains("connectors:"));
}

#[test]
fn render_with_uplink_disables_password_db() {
    let uplink = oidc_uplink(&["openid", "email"], true);
    let yaml = render_dex_config(
        "https://auth.svc.p.vz.test",
        "127.0.0.1:5556",
        &sample_clients(),
        &PasswordFile::Absent,
        "/state",
        Some(&uplink),
    )
    .unwrap();
    assert!(yaml.contains("enablePasswordDB: false"));
    assert!(yaml.contains("connectors:"));
    assert!(yaml.contains("type: oidc"));
    assert!(yaml.contains("id: uplink"));
    assert!(yaml.contains("https://login.example.com"));
    assert!(yaml.contains("clientSecret: s3cret"));
    assert!(yaml.contains("https://auth.svc.p.vz.test/callback"));
    assert!(!yaml.contains("admin@vzctl.local"));
}

#[test]
fn render_github_connector() {
    let uplink = ResolvedUplink {
        uplink_type: OidcUplinkType::Github,
        issuer: None,
        client_id: "gh-app".into(),
        client_secret: "gh-sec".into(),
        scopes: strings(&["read:user", "user:email"]),
        ..oidc_uplink(&[], true)
    };
    let yaml = render_dex_config(
        "https://auth.svc.p.vz.test",
        "127.0.0.1:5556",
        &sample_clients(),
        &PasswordFile::Absent,
        "/state",
        Some(&uplink),
    )
    .unwrap();
    assert!(yaml.contains("type: github"));
    assert!(yaml.contains("name: GitHub"));
    assert!(yaml.contains("clientID: gh-app"));
}

#[test]
fn render_microsoft_and_discord_connectors() {
    let ms = ResolvedUplink {
        uplink_type: OidcUplinkType::Microsoft,
        issuer: None,
        tenant: Some("common".into()),
        client_id: "ms-app".into(),
        client_secret: "ms-sec".into(),
        ..oidc_uplink(&["openid"], true)
    };
    let yaml = render_connector_block(&ms, "https://auth.svc.p.vz.test").unwrap();
    assert!(yaml.contains("type: microsoft"));
    assert!(yaml.contains("tenant: common"));
    assert!(yaml.contains("Microsoft Entra ID"));
    let discord = ResolvedUplink {
        uplink_type: OidcUplinkType::Discord,
        issuer: None,
        client_id: "dc-app".into(),
        client_secret: "dc-sec".into(),
        ..oidc_uplink(&["identify", "email"], true)
    };
    let yaml = render_connector_block(&discord, "https://auth.svc.p.vz.test").unwrap();
    assert!(yaml.contains("type: oauth2"));
    assert!(yaml.contains("name: Discord"));
    assert!(yaml.contains("discord.com/api/oauth2/authorize"));
}

#[test]
fn render_uplink_with_password_file_keeps_both() {
    let content = "  - email: \"break@vzctl.local\"\n    hash: \"$2a$10$x\"\n    username: \"break\"\n    userID: \"1\"\n";
    let uplink = ResolvedUplink {
        source: UplinkSource::Merged,
        ..oidc_uplink(&["openid"], false)
    };
    let yaml = render_dex_config(
        "https://auth.svc.p.vz.test",
        "127.0.0.1:5556",
        &sample_clients(),
        &PasswordFile::Present(content.into()),
        "/state",
        Some(&uplink),
    )
    .unwrap();
    assert!(yaml.contains("enablePasswordDB: true"));
    assert!(yaml.contains("break@vzctl.local"));
    assert!(yaml.contains("connectors:"));
    assert!(yaml.contains("getUserInfo: false"));
}

#[test]
fn render_is_exact_for_a_simple_config() {
    let clients = vec![DexClient {
        id: None,
        name: None,
        secret: None,
        redirect_uris: vec![],
    }];
    let yaml = render_dex_config("https://i", "127.0.0.1:1", &clients, &PasswordFile::Absent, "/s", Some(&oidc_uplink(&["openid"], true))).unwrap();
    assert_eq!(
        yaml,
        "issuer: https://i\nstorage:\n  type: sqlite3\n  config:\n    file: /s/dex.db\nweb:\n  http: 127.0.0.1:1\noauth2:\n  skipApprovalScreen: true\nstaticClients:\n  - id: client\n    name: client\n    secret: secret\n    redirectURIs:\n\nconnectors:\n  - type: oidc\n    id: uplink\n    name: Upstream IdP\n    config:\n      issuer: \"https://login.example.com\"\n      clientID: vzctl-dex\n      clientSecret: s3cret\n      redirectURI: \"https://i/callback\"\n      scopes:\n      - openid\n      getUserInfo: true\nenablePasswordDB: false\n"
    );
    let empty = render_dex_config("https://i", "l", &[], &PasswordFile::Missing("/pw".into()), "/s", None).unwrap();
    assert!(empty.contains("staticClients:\n  []\n\nenablePasswordDB: true\n"));
    assert_eq!(
        render_dex_config("https://i", "l", &[], &PasswordFile::Missing("/pw".into()), "/s", Some(&oidc_uplink(&[], true))).unwrap_err(),
        "passwordFile not found: /pw (omit passwordFile for uplink-only)"
    );
}

#[test]
fn connector_needs_issuer_and_trims_slashes() {
    let up = ResolvedUplink { issuer: None, ..oidc_uplink(&[], true) };
    assert_eq!(render_connector_block(&up, "https://x").unwrap_err(), "oidc connector missing issuer");
    let gh = ResolvedUplink { uplink_type: OidcUplinkType::Github, scopes: vec![], ..oidc_uplink(&[], true) };
    let block = render_connector_block(&gh, "https://dex.example//").unwrap();
    assert!(block.contains("redirectURI: \"https://dex.example/callback\"\n"));
    assert!(!block.contains("scopes:"));
}

#[test]
fn yaml_strings_are_quoted_only_when_needed() {
    assert_eq!(yaml_string("plain-value"), "plain-value");
    assert_eq!(yaml_string(""), "\"\"");
    assert_eq!(yaml_string("a b"), "\"a b\"");
    assert_eq!(yaml_string("[x"), "\"[x\"");
    assert_eq!(yaml_string("say \"hi\": \\o/"), "\"say \\\"hi\\\": \\\\o/\"");
    assert_eq!(yaml_string("back\\slash"), "back\\slash");
}

#[test]
fn oidc_format_options() {
    assert_eq!(parse_format(&[]).unwrap(), (Format::Human, None));
    assert_eq!(
        parse_format(&strings(&["--format", "json", "--project", "p"])).unwrap(),
        (Format::Json, Some("p".to_string()))
    );
    assert_eq!(parse_format(&strings(&["--format", "xml"])).unwrap_err(), "unsupported format: xml");
    assert_eq!(parse_format(&strings(&["--format"])).unwrap_err(), "--format requires human or json");
    assert_eq!(parse_format(&strings(&["--project", ""])).unwrap_err(), "--project requires a value");
    assert_eq!(parse_format(&strings(&["-x"])).unwrap_err(), "unexpected argument: -x");
    assert_eq!(uplink_type_str(OidcUplinkType::Discord), "discord");
    assert_eq!(UplinkSource::Merged.as_str(), "merged");
}

#[test]
fn secrets_hash_the_seed_and_salt() {
    assert_eq!(secret_for("web", "123"), "9aef4ee604f68f5869acd07c2eec48430157604be403fcefb59c7afc2327b036");
    assert_eq!(secret_for("grafana", ""), "49af078c015a446e6b4bb55e7f939192f1bceb70331f08b56dd7bb2ddd12425e");
}

#[test]
fn auto_clients_cover_vms_then_oidc_routes() {
    let vms = strings(&["web", "api"]);
    let routes = vec![
        ("grafana.example.test".to_string(), strings(&["oidc"])),
        ("web.example.test".to_string(), strings(&["tls", "oidc"])),
        ("static.example.test".to_string(), strings(&["tls"])),
        ("api.example.test".to_string(), strings(&["tls"])),
    ];
    let generated = auto_clients("demo", "demo.vz.test", &vms, &routes);
    assert_eq!(generated.project, "demo");
    assert_eq!(generated.issuer, "https://auth.svc.demo.vz.test");
    let ids: Vec<_> = generated.clients.iter().map(|c| c.id.clone().unwrap()).collect();
    assert_eq!(ids, vec!["web", "api", "grafana"]);
    assert_eq!(generated.clients[0].redirect_uris, vec!["https://web.example.test/oauth2/callback"]);
    assert_eq!(generated.clients[1].redirect_uris, vec!["https://api.svc.demo.vz.test/oauth2/callback"]);
    assert_eq!(generated.clients[2].redirect_uris, vec!["https://grafana.example.test/oauth2/callback"]);
    for client in &generated.clients {
        assert_eq!(client.name, client.id);
        let secret = client.secret.clone().unwrap();
        assert_eq!(secret.len(), 64);
        assert!(secret.chars().all(|c| c.is_ascii_hexdigit() && !c.is_ascii_uppercase()));
    }
}

#[test]
fn auto_clients_skip_route_labels_already_taken() {
    let routes = vec![
        ("web.a.test".to_string(), strings(&["oidc"])),
        ("web.b.test".to_string(), strings(&["oidc"])),
        ("solo".to_string(), strings(&["oidc"])),
    ];
    let generated = auto_clients("p", "p.vz.test", &[], &routes);
    let ids: Vec<_> = generated.clients.iter().map(|c| c.id.clone().unwrap()).collect();
    assert_eq!(ids, vec!["web", "solo"]);
    assert_eq!(generated.clients[1].redirect_uris, vec!["https://solo/oauth2/callback"]);
    assert!(auto_clients("p", "d", &[], &[]).clients.is_empty());
}
