use indexmap::IndexMap;
use openshell::text_map::TextMap;
use openshell::tui::app::App;
use openshell::tui::context::{KeyContext, SettingCheck};
use openshell::tui::create_provider::{flush_config_input, unique_provider_name};
use openshell::tui::keys::{handle_text_input, KeyCode, KeyEvent};
use openshell::tui::logs::LogPane;
use openshell::tui::model::{
    CreateFormField, CreateProviderForm, CreateProviderPhase, Focus, GatewayEntry, GatewayMetadataSource, GlobalSettingEntry, InputMode,
    LogLine, LogSourceFilter, MiddlePaneTab, ProviderKeyField, SandboxPolicyTab, Screen, SettingScope, SettingValue,
    SettingValueKind, UpdateProviderField, UpdateProviderForm,
};
use openshell::tui::scroll::{
    clamped_scroll, keep_cursor, min_of, minus, rows_shown, step_down, step_up,
};
use openshell::tui::settings::{EffectiveSetting, RegisteredSetting, SandboxSettingsPane};
use openshell::tui::update_provider::{config_delta, UpdateOutcome};

fn test_app() -> App {
    App::new(
        "test".to_string(),
        "http://127.0.0.1:1".to_string(),
        "default".to_string(),
        0,
    )
}

fn key_context() -> KeyContext {
    let mut provider_env_vars = TextMap::new();
    provider_env_vars.insert("anthropic".to_string(), vec!["ANTHROPIC_API_KEY".to_string()]);
    KeyContext {
        now: 1_000,
        setting_check: SettingCheck { bool_like: true, allowed: None },
        provider_types: vec!["anthropic".to_string(), "generic".to_string()],
        provider_env_vars,
        discovered: None,
    }
}

fn press(app: &mut App, code: KeyCode) {
    let context = key_context();
    assert!(app.can_handle(KeyEvent::plain(code)));
    app.handle_key(KeyEvent::plain(code), &context);
}

#[test]
fn sandbox_tabs_cycle_through_trust() {
    assert_eq!(SandboxPolicyTab::Policy.next(), SandboxPolicyTab::Settings);
    assert_eq!(SandboxPolicyTab::Settings.next(), SandboxPolicyTab::Trust);
    assert_eq!(SandboxPolicyTab::Trust.next(), SandboxPolicyTab::Policy);
}

#[test]
fn trust_refresh_is_explicit_and_leaving_invalidates_transient_state() {
    let mut app = test_app();
    app.screen = Screen::Sandbox;
    app.focus = Focus::SandboxPolicy;
    app.policy.sandbox_policy_tab = SandboxPolicyTab::Trust;
    app.sandboxes.sandbox_names.push("demo".to_string());
    app.sandboxes.sandbox_count = 1;

    press(&mut app, KeyCode::Char('r'));
    assert!(app.trust.pending_sandbox_attestation);
    assert!(app.trust.sandbox_attestation_loading);

    let request_id = app.trust.sandbox_attestation_request_id;
    press(&mut app, KeyCode::Right);
    assert_eq!(app.policy.sandbox_policy_tab, SandboxPolicyTab::Policy);
    assert!(!app.trust.pending_sandbox_attestation);
    assert!(!app.trust.sandbox_attestation_loading);
    assert!(app.trust.sandbox_attestation.is_none());
    assert_ne!(app.trust.sandbox_attestation_request_id, request_id);
}

#[test]
fn trust_scroll_uses_rendered_rows_and_resets_on_refresh() {
    let mut app = test_app();
    app.trust.trust_content_rows = 100;
    app.trust.trust_viewport_height = 10;

    app.trust.handle_key(KeyEvent::plain(KeyCode::PageDown));
    assert_eq!(app.trust.trust_scroll, 10);
    app.trust.handle_key(KeyEvent::plain(KeyCode::Char('G')));
    assert_eq!(app.trust.trust_scroll, 90);
    app.trust.handle_key(KeyEvent::plain(KeyCode::Down));
    assert_eq!(app.trust.trust_scroll, 90);
    app.trust.handle_key(KeyEvent::plain(KeyCode::Char('g')));
    assert_eq!(app.trust.trust_scroll, 0);

    app.trust.trust_scroll = 25;
    app.trust.handle_key(KeyEvent::plain(KeyCode::Char('r')));
    assert_eq!(app.trust.trust_scroll, 0);
}

#[test]
fn global_settings_do_not_override_provider_api_capability() {
    let mut app = test_app();
    app.provider.providers_v2_enabled = true;
    let registered = vec![RegisteredSetting {
        key: "providers_v2_enabled".to_string(),
        kind: SettingValueKind::Bool,
    }];
    let mut values = TextMap::new();
    values.insert(
        "providers_v2_enabled".to_string(),
        Some(SettingValue::BoolValue(false)),
    );

    app.apply_global_settings(&registered, &values, 7);

    assert!(app.provider.providers_v2_enabled);
    assert_eq!(app.settings.global_settings_revision, 7);
    assert_eq!(app.settings.global_settings.len(), 1);
    assert_eq!(app.settings.global_settings[0].display_value(), "false");
}

#[test]
fn denied_platform_state_is_cleared_and_reprobed_after_gateway_switch() {
    let mut app = test_app();
    app.settings.global_settings = vec![GlobalSettingEntry {
        key: "stale".to_string(),
        kind: SettingValueKind::Bool,
        value: Some(SettingValue::BoolValue(true)),
    }];
    app.settings.global_settings_revision = 4;
    app.settings.global_policy_active = true;
    app.settings.global_policy_version = 3;

    app.deny_global_settings_access();
    app.deny_global_policy_access();

    assert!(app.settings.global_settings_access_denied);
    assert!(app.settings.global_settings.is_empty());
    assert_eq!(app.settings.global_settings_revision, 0);
    assert!(app.settings.global_policy_access_denied);
    assert!(!app.settings.global_policy_active);
    assert_eq!(app.settings.global_policy_version, 0);

    app.reset_sandbox_state();

    assert!(!app.settings.global_settings_access_denied);
    assert!(!app.settings.global_policy_access_denied);
}

#[test]
fn scroll_empty_content() {
    assert_eq!(clamped_scroll(0, 1, 0, 10), 0);
    assert_eq!(clamped_scroll(0, -1, 0, 10), 0);
    assert_eq!(clamped_scroll(0, 20, 0, 10), 0);
}

#[test]
fn scroll_content_shorter_than_viewport() {
    assert_eq!(clamped_scroll(0, 1, 5, 10), 0);
    assert_eq!(clamped_scroll(0, 5, 5, 10), 0);
}

#[test]
fn scroll_content_equals_viewport() {
    assert_eq!(clamped_scroll(0, 1, 10, 10), 0);
    assert_eq!(clamped_scroll(0, -1, 10, 10), 0);
}

#[test]
fn scroll_down_one() {
    assert_eq!(clamped_scroll(0, 1, 100, 20), 1);
}

#[test]
fn scroll_page_down() {
    assert_eq!(clamped_scroll(0, 20, 100, 20), 20);
}

#[test]
fn scroll_page_down_clamps_at_bottom() {
    assert_eq!(clamped_scroll(75, 20, 100, 20), 80);
    assert_eq!(clamped_scroll(80, 20, 100, 20), 80);
}

#[test]
fn scroll_page_up_from_middle() {
    assert_eq!(clamped_scroll(40, -20, 100, 20), 20);
}

#[test]
fn scroll_page_up_clamps_at_top() {
    assert_eq!(clamped_scroll(5, -20, 100, 20), 0);
    assert_eq!(clamped_scroll(0, -1, 100, 20), 0);
}

#[test]
fn scroll_viewport_zero_before_first_draw() {
    assert_eq!(clamped_scroll(0, 1, 100, 0), 1);
    assert_eq!(clamped_scroll(98, 5, 100, 0), 99);
}

#[test]
fn scroll_up_one() {
    assert_eq!(clamped_scroll(10, -1, 100, 20), 9);
}

#[test]
fn scrolling_up_leaves_the_last_viewport_visible() {
    assert_eq!(clamped_scroll(50, -1, 10, 5), 5);
    assert_eq!(clamped_scroll(50, 0, 10, 5), 5);
    assert_eq!(clamped_scroll(50, -47, 10, 5), 3);
}

#[test]
fn gateway_entry_source_label_formats_known_sources() {
    let user_gateway = GatewayEntry {
        name: "user-gw".to_string(),
        endpoint: "https://user.example.com".to_string(),
        is_remote: true,
        source: Some(GatewayMetadataSource::User),
    };
    let system_gateway = GatewayEntry {
        name: "system-gw".to_string(),
        endpoint: "http://127.0.0.1:17670".to_string(),
        is_remote: false,
        source: Some(GatewayMetadataSource::System),
    };

    assert_eq!(user_gateway.source_label(), "user");
    assert_eq!(system_gateway.source_label(), "system");
}

#[test]
fn gateway_entry_source_label_handles_unknown_source() {
    let gateway = GatewayEntry {
        name: "mystery".to_string(),
        endpoint: "https://mystery.example.com".to_string(),
        is_remote: true,
        source: None,
    };

    assert_eq!(gateway.source_label(), "unknown");
}

fn app_with_workspaces(workspaces: &[&str], selected: usize, current: &str) -> App {
    let mut app = test_app();
    app.workspace.current_workspace = current.to_string();
    app.sandboxes.sandbox_workspaces = workspaces.iter().map(|w| w.to_string()).collect();
    app.sandboxes.sandbox_selected = selected;
    app.provider.provider_workspaces = workspaces.iter().map(|w| w.to_string()).collect();
    app.provider.provider_selected = selected;
    app
}

#[test]
fn selected_sandbox_workspace_returns_per_row_value() {
    let app = app_with_workspaces(&["default", "beta", "staging"], 1, "default");
    assert_eq!(app.selected_sandbox_workspace(), "beta");
}

#[test]
fn selected_sandbox_workspace_falls_back_to_current() {
    let app = app_with_workspaces(&[], 0, "default");
    assert_eq!(app.selected_sandbox_workspace(), "default");
}

#[test]
fn selected_provider_workspace_returns_per_row_value() {
    let app = app_with_workspaces(&["default", "beta", "staging"], 1, "default");
    assert_eq!(app.selected_provider_workspace(), "beta");
}

#[test]
fn selected_provider_workspace_falls_back_to_current() {
    let app = app_with_workspaces(&[], 0, "default");
    assert_eq!(app.selected_provider_workspace(), "default");
}

#[test]
fn flush_config_input_inserts_when_both_present() {
    let mut config = IndexMap::new();
    let mut key = "FOO".to_string();
    let mut val = "bar".to_string();
    assert!(flush_config_input(&mut config, &mut key, &mut val));
    assert_eq!(config.get("FOO"), Some(&"bar".to_string()));
    assert!(key.is_empty());
    assert!(val.is_empty());
}

#[test]
fn flush_config_input_noop_when_key_empty() {
    let mut config = IndexMap::new();
    let mut key = String::new();
    let mut val = "bar".to_string();
    assert!(!flush_config_input(&mut config, &mut key, &mut val));
    assert!(config.is_empty());
    assert_eq!(val, "bar");
}

#[test]
fn flush_config_input_noop_when_value_empty() {
    let mut config = IndexMap::new();
    let mut key = "FOO".to_string();
    let mut val = String::new();
    assert!(!flush_config_input(&mut config, &mut key, &mut val));
    assert!(config.is_empty());
    assert_eq!(key, "FOO");
}

fn update_form(
    config: IndexMap<String, String>,
    original_config: IndexMap<String, String>,
    deleted_keys: Vec<String>,
    focus: UpdateProviderField,
) -> UpdateProviderForm {
    UpdateProviderForm {
        provider_name: "p".into(),
        provider_type: "t".into(),
        credential_key: "k".into(),
        new_value: String::new(),
        config,
        original_config,
        config_key_input: String::new(),
        config_value_input: String::new(),
        config_cursor: 0,
        focus,
        status: None,
        deleted_keys,
    }
}

fn entries(list: &[(&str, &str)]) -> IndexMap<String, String> {
    list.iter()
        .map(|(k, v)| (k.to_string(), v.to_string()))
        .collect()
}

#[test]
fn delete_config_entry_records_tombstone() {
    let config = entries(&[("FOO", "1"), ("BAR", "2")]);

    let mut form = update_form(
        config.clone(),
        config,
        Vec::new(),
        UpdateProviderField::ConfigEntry,
    );

    form.handle_key(KeyEvent::with_control(KeyCode::Char('d')));

    assert!(!form.config.contains_key("FOO"));
    assert!(form.deleted_keys.contains(&"FOO".to_owned()));
}

#[test]
fn delete_last_config_entry_allows_submit() {
    let mut form = update_form(
        IndexMap::new(),
        entries(&[("FOO", "1")]),
        vec!["FOO".into()],
        UpdateProviderField::Submit,
    );

    assert!(
        !(form.new_value.is_empty() && form.config.is_empty() && form.deleted_keys.is_empty())
    );
    assert!(matches!(
        form.handle_key(KeyEvent::plain(KeyCode::Enter)),
        UpdateOutcome::Update
    ));
}

fn window_offset(total: usize, cursor: usize, window: usize) -> usize {
    if total > window {
        min_of(minus(cursor, window - 2), minus(total, window))
    } else {
        0
    }
}

#[test]
fn scroll_offset_zero_when_within_window() {
    let (total, cursor, window) = (4_usize, 3_usize, 6_usize);
    let offset = window_offset(total, cursor, window);

    assert_eq!(offset, 0_usize);
}

#[test]
fn scroll_offset_follows_cursor_past_window() {
    let (total, cursor, window) = (10_usize, 8_usize, 6_usize);
    let offset = window_offset(total, cursor, window);
    assert_eq!(offset, 4);
    assert!(cursor >= offset && cursor < offset + window);
}

#[test]
fn pending_config_input_flushed_on_submit() {
    let mut config = IndexMap::new();
    let mut key_input = "MY_KEY".to_string();
    let mut val_input = "my_val".to_string();
    flush_config_input(&mut config, &mut key_input, &mut val_input);
    assert_eq!(config.get("MY_KEY"), Some(&"my_val".to_string()));
    assert!(key_input.is_empty());
    assert!(val_input.is_empty());
}

#[test]
fn update_request_contains_only_config_delta() {
    let original_config = entries(&[("A", "1"), ("B", "2")]);
    let config = entries(&[("A", "1"), ("B", "changed")]);

    let delta = config_delta(&original_config, &config);

    assert!(delta.contains_key("B"), "changed key must be in delta");
    assert!(
        !delta.contains_key("A"),
        "unchanged key must not be in delta"
    );
}

#[test]
fn deleted_key_tombstoned_readded_key_not_tombstoned() {
    let original_config = entries(&[("DEL", "old"), ("READD", "orig"), ("KEEP", "keep")]);
    let config = entries(&[("READD", "new"), ("KEEP", "keep")]);

    let request = config_delta(&original_config, &config);

    assert_eq!(
        request.get("DEL"),
        Some(&String::new()),
        "DEL must be tombstoned"
    );
    assert_eq!(
        request.get("READD"),
        Some(&"new".to_string()),
        "READD must have new value, not tombstone"
    );
    assert!(
        !request.contains_key("KEEP"),
        "KEEP unchanged must not be in delta"
    );
}

#[test]
fn submit_guard_triggers_when_key_filled_value_empty() {
    let mut config = IndexMap::new();
    let mut key_input = "FOO".to_string();
    let mut val_input = String::new();

    let flushed = flush_config_input(&mut config, &mut key_input, &mut val_input);

    assert!(!flushed, "flush must fail when value is empty");
    assert!(
        !key_input.is_empty() || !val_input.is_empty(),
        "submit guard must detect partial input"
    );
    assert!(config.is_empty(), "config must not be modified");
}

#[test]
fn submit_guard_triggers_when_value_filled_key_empty() {
    let mut config = IndexMap::new();
    let mut key_input = String::new();
    let mut val_input = "bar".to_string();

    let flushed = flush_config_input(&mut config, &mut key_input, &mut val_input);

    assert!(!flushed, "flush must fail when key is empty");
    assert!(
        !key_input.is_empty() || !val_input.is_empty(),
        "submit guard must detect partial input"
    );
    assert!(config.is_empty(), "config must not be modified");
}

#[test]
fn submit_guard_clear_when_both_filled() {
    let mut config = IndexMap::new();
    let mut key_input = "FOO".to_string();
    let mut val_input = "bar".to_string();

    let flushed = flush_config_input(&mut config, &mut key_input, &mut val_input);

    assert!(flushed, "flush must succeed when both fields filled");
    assert!(
        key_input.is_empty() && val_input.is_empty(),
        "submit guard must not trigger after successful flush"
    );
    assert_eq!(config.get("FOO"), Some(&"bar".to_string()));
}

#[test]
fn any_key_dismisses_the_splash_and_control_c_quits() {
    let mut app = test_app();
    assert_eq!(app.screen, Screen::Splash);
    press(&mut app, KeyCode::Char('x'));
    assert_eq!(app.screen, Screen::Dashboard);
    assert!(app.running);
    app.handle_key(KeyEvent::with_control(KeyCode::Char('c')), &key_context());
    assert!(!app.running);
}

#[test]
fn commands_are_typed_after_a_colon() {
    let mut app = test_app();
    press(&mut app, KeyCode::Enter);
    press(&mut app, KeyCode::Char(':'));
    assert_eq!(app.input_mode, InputMode::Command);
    press(&mut app, KeyCode::Char('q'));
    assert_eq!(app.command_input, "q");
    press(&mut app, KeyCode::Enter);
    assert!(!app.running);
}

#[test]
fn the_interface_ends_only_on_a_wish() {
    let mut app = test_app();
    press(&mut app, KeyCode::Char('q'));
    assert!(app.running);
    assert_eq!(app.screen, Screen::Dashboard);
    press(&mut app, KeyCode::Char(':'));
    press(&mut app, KeyCode::Char('q'));
    press(&mut app, KeyCode::Esc);
    assert!(app.running);
    press(&mut app, KeyCode::Char('q'));
    assert!(!app.running);
}

#[test]
fn a_sandbox_is_opened_and_its_deletion_confirmed() {
    let mut app = test_app();
    press(&mut app, KeyCode::Enter);
    app.focus = Focus::Sandboxes;
    app.sandboxes.sandbox_names.push("demo".to_string());
    app.sandboxes.sandbox_ids.push("id-1".to_string());
    app.sandboxes.sandbox_count = 1;
    assert_eq!(app.selected_sandbox_name(), Some("demo"));
    assert_eq!(app.selected_sandbox_id(), Some("id-1"));
    press(&mut app, KeyCode::Enter);
    assert_eq!(app.screen, Screen::Sandbox);
    assert_eq!(app.focus, Focus::SandboxPolicy);
    press(&mut app, KeyCode::Char('d'));
    assert!(app.policy.confirm_delete);
    assert!(!app.policy.pending_sandbox_delete);
    press(&mut app, KeyCode::Char('y'));
    assert!(app.policy.pending_sandbox_delete);
    press(&mut app, KeyCode::Esc);
    assert_eq!(app.screen, Screen::Dashboard);
}

#[test]
fn workspaces_are_cycled() {
    let mut app = test_app();
    app.workspace.workspace_names = vec!["beta".to_string(), "default".to_string()];
    assert_eq!(app.workspace_display(), "default");
    app.cycle_workspace();
    assert_eq!(app.workspace_display(), "all");
    assert!(app.workspace.all_workspaces);
    app.cycle_workspace();
    assert_eq!(app.workspace_display(), "default");
    app.workspace.current_workspace = "beta".to_string();
    app.cycle_workspace();
    assert_eq!(app.workspace_display(), "default");
    assert!(!app.workspace.all_workspaces);
}

fn log_line(source: &str) -> LogLine {
    LogLine {
        timestamp_ms: 0,
        level: "INFO".to_string(),
        source: source.to_string(),
        target: String::new(),
        message: "m".to_string(),
        fields: TextMap::new(),
    }
}

#[test]
fn logs_are_filtered_scrolled_and_copied() {
    let mut pane = LogPane::new();
    for i in 0..10 {
        pane.sandbox_log_lines
            .push(log_line(if i % 2 == 0 { "gateway" } else { "sandbox" }));
    }
    pane.log_viewport_height = 5;
    assert_eq!(pane.filtered_log_lines().len(), 10);
    assert_eq!(pane.log_autoscroll_offset(), 8);
    pane.handle_key(KeyEvent::plain(KeyCode::Char('s')));
    assert_eq!(pane.log_source_filter, LogSourceFilter::Gateway);
    assert_eq!(pane.filtered_log_lines().len(), 5);
    pane.handle_key(KeyEvent::plain(KeyCode::Char('j')));
    assert_eq!((pane.sandbox_log_scroll, pane.log_cursor), (0, 1));
    pane.handle_key(KeyEvent::plain(KeyCode::Char('v')));
    pane.handle_key(KeyEvent::plain(KeyCode::Char('j')));
    pane.handle_key(KeyEvent::plain(KeyCode::Char('y')));
    assert_eq!(pane.log_copy_request, Some((1, 3)));
    assert!(pane.log_selection_anchor.is_none());
    pane.handle_key(KeyEvent::plain(KeyCode::Char('s')));
    pane.handle_key(KeyEvent::plain(KeyCode::Char('s')));
    assert_eq!(pane.log_source_filter, LogSourceFilter::All);
    pane.scroll_logs(100);
    assert_eq!(pane.sandbox_log_scroll, 8);
}

#[test]
fn the_cursor_walks_the_rows() {
    assert_eq!(step_down(0, 4, 10, 5), (1, 4));
    assert_eq!(step_down(0, 3, 10, 5), (0, 4));
    assert_eq!(step_up(1, 0), (0, 0));
    assert_eq!(step_up(1, 2), (1, 1));
    assert_eq!(keep_cursor(8, 4, 10, 5), 1);
    assert_eq!(rows_shown(10, 8, 5), 2);
}

#[test]
fn settings_that_are_managed_globally_stay() {
    let mut pane = SandboxSettingsPane::new();
    let registered = vec![RegisteredSetting {
        key: "k".to_string(),
        kind: SettingValueKind::String,
    }];
    let mut values = TextMap::new();
    values.insert(
        "k".to_string(),
        EffectiveSetting {
            value: Some(SettingValue::StringValue("v".to_string())),
            scope: 2,
        },
    );
    pane.apply_sandbox_settings(&registered, &values);
    assert_eq!(pane.sandbox_settings[0].scope, SettingScope::Global);
    assert!(pane.sandbox_settings[0].is_globally_managed());
    pane.handle_key(KeyEvent::plain(KeyCode::Enter));
    assert!(pane.sandbox_setting_edit.is_none());
    pane.handle_key(KeyEvent::plain(KeyCode::Char('d')));
    assert!(pane.sandbox_confirm_setting_delete.is_none());
}

#[test]
fn texts_are_typed_and_names_made_unique() {
    let mut field = "ab".to_string();
    handle_text_input(&mut field, KeyEvent::plain(KeyCode::Char('c')));
    assert_eq!(field, "abc");
    handle_text_input(&mut field, KeyEvent::plain(KeyCode::Backspace));
    assert_eq!(field, "ab");
    assert_eq!(unique_provider_name("x", &vec![]), "x");
    assert_eq!(
        unique_provider_name("x", &vec!["x".to_string(), "x-1".to_string()]),
        "x-2"
    );
    let mut taken = vec!["x".to_string()];
    for i in 1..150 {
        taken.push(format!("x-{i}"));
    }
    assert_eq!(unique_provider_name("x", &taken), "x-150");
    assert_eq!(CreateFormField::Name.next().prev(), CreateFormField::Name);
    assert_eq!(MiddlePaneTab::Providers.next().next(), MiddlePaneTab::Providers);
}

#[test]
fn a_provider_cannot_be_created_where_no_type_is_known() {
    let mut app = test_app();
    let mut context = key_context();
    context.provider_types.clear();
    app.screen = Screen::Dashboard;
    app.focus = Focus::Providers;
    app.provider.middle_pane_tab = MiddlePaneTab::Providers;

    for code in [KeyCode::Char('c'), KeyCode::Down, KeyCode::Up] {
        assert!(app.can_handle(KeyEvent::plain(code)));
        app.handle_key(KeyEvent::plain(code), &context);
        let form = app.provider.create_provider_form.as_ref().unwrap();
        assert_eq!(form.type_cursor, 0);
        assert!(form.types.is_empty());
    }
    assert!(!app.can_handle(KeyEvent::plain(KeyCode::Enter)));
    app.handle_key(KeyEvent::plain(KeyCode::Esc), &context);
    assert!(app.provider.create_provider_form.is_none());
    assert!(app.can_handle(KeyEvent::plain(KeyCode::Enter)));
}

#[test]
fn a_half_typed_entry_is_refused_though_no_type_is_known() {
    let mut app = test_app();
    app.screen = Screen::Dashboard;
    let mut form = CreateProviderForm::with_types(Vec::new());
    form.phase = CreateProviderPhase::EnterKey;
    form.key_field = ProviderKeyField::Submit;
    form.credentials = vec![("K".to_string(), "v".to_string())];
    form.config_key_input = "FOO".to_string();
    app.provider.create_provider_form = Some(form);

    press(&mut app, KeyCode::Enter);

    let form = app.provider.create_provider_form.as_ref().unwrap();
    assert_eq!(
        form.status.as_deref(),
        Some("Both key and value are required to add config entry.")
    );
    assert_eq!(form.phase, CreateProviderPhase::EnterKey);
    assert!(form.discovered_credentials.is_none());
    assert!(form.config.is_empty());
    assert_eq!(form.config_key_input, "FOO");
    assert!(!app.provider.pending_provider_create);
}
