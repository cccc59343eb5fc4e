use openshell::text_map::TextMap;
use openshell::tui::app::App;
use openshell::tui::create_provider::unique_provider_name;
use openshell::tui::keys::{KeyCode, KeyEvent};
use openshell::tui::model::{CreateSandboxForm, ProviderDetailView, ProviderEntry};
use openshell::tui::policy::{L7Rule, NetworkBinary, NetworkEndpoint};
use openshell::tui::provider::{
    format_annotations, format_labels, mask_secret, plural, provider_category_label,
    provider_id, provider_name, provider_resource_version, provider_to_redacted_yaml,
    refresh_strategy_label, sanitize_for_display, yaml_scalar, CredentialRefresh, ObjectMeta,
    ProfileCredential, ProfileDiscovery, Provider, ProviderCredentialRefreshStrategy,
    ProviderProfile, ProviderProfileCategory,
};
use openshell::tui::provider_detail::ProviderListEntry;

fn map(entries: &[(&str, &str)]) -> TextMap<String> {
    let mut map = TextMap::new();
    for (key, value) in entries {
        map.insert(key.to_string(), value.to_string());
    }
    map
}

fn provider() -> Provider {
    let mut credential_expires_at_ms = TextMap::new();
    credential_expires_at_ms.insert("API_KEY".to_string(), 1_700_000_000_000);
    credential_expires_at_ms.insert("SPARE".to_string(), 0);
    Provider {
        metadata: Some(ObjectMeta {
            id: "p-1".to_string(),
            name: "main".to_string(),
            resource_version: 7,
            labels: map(&[("team", "a\"b")]),
        }),
        provider_type: "anthropic".to_string(),
        credentials: map(&[("API_KEY", "sk-0123456789"), ("SPARE", "abc")]),
        config: map(&[("url", "https://x"), ("a", "1")]),
        credential_expires_at_ms,
    }
}

fn endpoint(protocol: &str, access: &str, path: &str) -> NetworkEndpoint {
    NetworkEndpoint {
        host: "api.example.com".to_string(),
        port: 443,
        protocol: protocol.to_string(),
        tls: String::new(),
        enforcement: String::new(),
        access: access.to_string(),
        path: path.to_string(),
        rules: Vec::new(),
        deny_rules: Vec::new(),
        request_body_credential_rewrite: false,
        websocket_credential_rewrite: false,
    }
}

fn credential(name: &str, env_vars: &[&str], required: bool) -> ProfileCredential {
    ProfileCredential {
        name: name.to_string(),
        env_vars: env_vars.iter().map(|s| s.to_string()).collect(),
        required,
        refresh: None,
    }
}

fn profile() -> ProviderProfile {
    let mut renewed = credential("token", &["MISSING", "API_KEY"], true);
    renewed.refresh = Some(CredentialRefresh {
        strategy: ProviderCredentialRefreshStrategy::Oauth2RefreshToken,
        scopes: vec!["read".to_string(), "write".to_string()],
        material: vec!["client_id".to_string()],
    });
    let mut ruled = endpoint("rest", "", "/v1");
    ruled.rules.push(L7Rule { allow: None });
    ProviderProfile {
        id: "anthropic".to_string(),
        display_name: String::new(),
        description: "Models".to_string(),
        category: ProviderProfileCategory::Inference,
        credentials: vec![renewed, credential("extra", &[], true), credential("opt", &["O"], false)],
        endpoints: vec![endpoint("", "", ""), endpoint("rest", "full", ""), ruled],
        binaries: (0..6).map(|i| NetworkBinary { path: format!("/bin/{i}") }).collect(),
        inference_capable: true,
        discovery: Some(ProfileDiscovery { credentials: vec!["env".to_string()] }),
    }
}

fn test_app() -> App {
    App::new("g".to_string(), "http://g".to_string(), "default".to_string(), 0)
}

#[test]
fn secrets_are_masked() {
    assert_eq!(mask_secret(""), "****");
    assert_eq!(mask_secret("abcd"), "****");
    assert_eq!(mask_secret("abcde"), "ab*…de");
    assert_eq!(mask_secret("sk-0123456789"), "sk*********…89");
    assert_eq!(mask_secret(&"x".repeat(100)), format!("xx{}…xx", "*".repeat(20)));
    assert_eq!(mask_secret("ab12de"), mask_secret("ab34de"));
}

#[test]
fn names_are_generated_until_one_is_free() {
    let mut names: Vec<String> = vec!["p".to_string()];
    for i in 1..120 {
        let name = unique_provider_name("p", &names);
        assert_eq!(name, format!("p-{i}"));
        assert!(!names.contains(&name));
        names.push(name);
    }
    assert_eq!(unique_provider_name("p", &names), "p-120");
    assert_eq!(unique_provider_name("q", &names), "q");
}

#[test]
fn control_characters_are_not_shown() {
    assert_eq!(sanitize_for_display("a\u{1b}[0m\nb\t\u{85}c"), "a[0m\nbc");
    assert_eq!(format_labels(&map(&[("b", "2\r"), ("a", "1")])), "a=1,b=2");
    assert_eq!(format_annotations(&map(&[("k", "v")])), "k=v");
    assert_eq!(format_labels(&map(&[])), "");
}

#[test]
fn yaml_is_quoted_on_one_line() {
    assert_eq!(yaml_scalar("plain"), "\"plain\"");
    assert_eq!(yaml_scalar("a\\b\"c\nd\re\tf"), "\"a\\\\b\\\"c\\nd\\re\\tf\"");
}

#[test]
fn providers_are_written_without_their_secrets() {
    let yaml = provider_to_redacted_yaml(&provider());
    assert_eq!(
        yaml,
        "name: \"main\"\n\
         type: \"anthropic\"\n\
         credentials:\n  API_KEY: \"<redacted>\"\n  SPARE: \"<redacted>\"\n\
         config:\n  a: \"1\"\n  url: \"https://x\"\n\
         credential_expires_at_ms:\n  API_KEY: 1700000000000\n  SPARE: 0\n\
         metadata:\n  id: \"p-1\"\n  resource_version: 7\n  labels:\n    team: \"a\\\"b\"\n"
    );
    let mut other = provider();
    other.credentials = map(&[("API_KEY", "another"), ("SPARE", "one")]);
    assert_eq!(provider_to_redacted_yaml(&other), yaml);
    let bare = Provider {
        metadata: None,
        provider_type: "t".to_string(),
        credentials: TextMap::new(),
        config: TextMap::new(),
        credential_expires_at_ms: TextMap::new(),
    };
    assert_eq!(
        provider_to_redacted_yaml(&bare),
        format!("name: \"{}\"\ntype: \"t\"\ncredentials: {{}}\nconfig: {{}}\n", provider_name(&bare))
    );
    assert_eq!(provider_id(&provider()), "p-1");
    assert_eq!(provider_resource_version(&provider()), 7);
    assert_eq!(provider_resource_version(&bare), 0);
}

#[test]
fn labels_stand_for_what_they_name() {
    assert_eq!(
        provider_category_label(ProviderProfileCategory::SourceControl),
        "source_control"
    );
    assert_eq!(provider_category_label(ProviderProfileCategory::Unspecified), "other");
    assert_eq!(
        refresh_strategy_label(ProviderCredentialRefreshStrategy::AwsStsAssumeRole),
        "aws_sts_assume_role"
    );
    assert_eq!((plural(0), plural(1), plural(2)), ("s", "", "s"));
}

#[test]
fn the_list_sums_a_provider_up() {
    let entry = ProviderListEntry { provider: provider(), profile: Some(profile()) };
    assert_eq!(entry.name(), "main");
    assert_eq!(entry.profile_label(), "anthropic");
    assert_eq!(entry.category_label(), "inference");
    assert_eq!(entry.credential_summary(), "1/2 req, 2 keys");
    assert_eq!(entry.policy_summary(), "3 endpoints, 6 bins, inference");
    let entry = ProviderListEntry { provider: provider(), profile: None };
    assert_eq!(entry.profile_label(), "anthropic (unprofiled)");
    assert_eq!(entry.category_label(), "legacy");
    assert_eq!(entry.credential_summary(), "2 keys");
    assert_eq!(entry.policy_summary(), "no profile");
}

fn detail(profile: Option<ProviderProfile>) -> ProviderDetailView {
    let mut app = test_app();
    let yaml = profile.as_ref().map(|_| "id: anthropic\n".to_string());
    app.provider.provider_entries.push(ProviderListEntry { provider: provider(), profile });
    app.provider_detail_from_provider(&provider(), yaml)
}

#[test]
fn a_provider_with_a_profile_is_detailed() {
    let view = detail(Some(profile()));
    assert_eq!(view.name, "main");
    assert_eq!(view.provider_id, "p-1");
    assert_eq!(view.resource_version, 7);
    assert_eq!(view.profile_name.as_deref(), Some("anthropic"));
    assert_eq!(view.profile_category.as_deref(), Some("inference"));
    assert_eq!(view.profile_description.as_deref(), Some("Models"));
    assert_eq!(view.raw_profile_yaml.as_deref(), Some("id: anthropic\n"));
    assert_eq!(view.raw_provider_yaml, provider_to_redacted_yaml(&provider()));
    assert_eq!(
        view.credential_lines,
        vec![
            "token (required) env=[MISSING, API_KEY] present expires=1700000000000",
            "extra (required) env=[<none>] missing",
            "opt (optional) env=[O] missing",
        ]
    );
    assert_eq!(view.config_lines, vec!["a=1", "url=https://x"]);
    assert_eq!(
        view.policy_lines,
        vec![
            "api.example.com:443 l4 custom",
            "api.example.com:443 rest full",
            "api.example.com:443 rest rules path=/v1",
            "Binaries: 6",
            "  /bin/0",
            "  /bin/1",
            "  /bin/2",
            "  /bin/3",
            "  ... 2 more",
        ]
    );
    assert_eq!(view.discovery_lines, vec!["env"]);
    assert_eq!(
        view.refresh_lines,
        vec!["token: oauth2_refresh_token scopes=[read, write] material=1 key"]
    );
}

#[test]
fn a_provider_without_a_profile_is_detailed() {
    let view = detail(None);
    assert_eq!(view.profile_name, None);
    assert_eq!(view.profile_category, None);
    assert_eq!(
        view.credential_lines,
        vec!["API_KEY: sk*********…89 expires=1700000000000", "SPARE: ****"]
    );
    assert_eq!(
        view.policy_lines,
        vec!["No provider profile found; no v2 policy metadata."]
    );
    assert_eq!(view.discovery_lines, vec!["<none>"]);
    assert_eq!(view.refresh_lines, vec!["No profile refresh metadata."]);
}

#[test]
fn the_detail_is_scrolled_and_closed() {
    let mut view = detail(Some(profile()));
    assert!(!view.handle_key(KeyEvent::plain(KeyCode::Char('j'))));
    assert_eq!(view.summary_scroll, 1);
    assert!(!view.handle_key(KeyEvent::plain(KeyCode::Char('o'))));
    assert!(view.show_raw_provider);
    for _ in 0..100 {
        view.handle_key(KeyEvent::plain(KeyCode::Down));
    }
    assert_eq!(view.raw_provider_scroll, view.raw_provider_yaml.lines().count() - 1);
    view.handle_key(KeyEvent::plain(KeyCode::Up));
    assert_eq!(view.raw_provider_scroll, view.raw_provider_yaml.lines().count() - 2);
    assert!(!view.handle_key(KeyEvent::plain(KeyCode::Char('y'))));
    assert!(view.show_raw_profile && !view.show_raw_provider);
    assert!(!view.handle_key(KeyEvent::plain(KeyCode::Esc)));
    assert!(!view.show_raw_profile);
    assert!(view.handle_key(KeyEvent::plain(KeyCode::Esc)));
    assert!(view.handle_key(KeyEvent::plain(KeyCode::Enter)));
}

#[test]
fn a_sandbox_form_gives_what_was_chosen() {
    let mut app = test_app();
    assert!(app.create_form_data().is_none());
    let mut form = CreateSandboxForm::with_providers(vec![
        ProviderEntry { name: "a".to_string(), provider_type: "t".to_string(), selected: false },
        ProviderEntry { name: "b".to_string(), provider_type: "t".to_string(), selected: true },
    ]);
    form.name = "demo".to_string();
    form.image = "img".to_string();
    form.command = "sh".to_string();
    form.ports = " 80, ,443 ".to_string();
    app.create.create_form = Some(form);
    let (name, image, command, providers, ports) = app.create_form_data().unwrap();
    assert_eq!((name.as_str(), image.as_str(), command.as_str()), ("demo", "img", "sh"));
    assert_eq!(providers, vec!["b"]);
    assert_eq!(ports, vec!["80", "443"]);
}
