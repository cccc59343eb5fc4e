use openshell::tui::app::App;
use openshell::tui::chrome::{edit_lines, text_field, SandboxView};
use openshell::tui::model::{
    Focus, GatewayEntry, GatewayMetadataSource, InputMode, LogLine, LogSourceFilter, MiddlePaneTab,
    SandboxPolicyTab, Screen, SettingEditState, SettingValueKind,
};
use openshell::tui::policy::PolicyChunk;
use openshell::tui::popups::DetailMetrics;
use openshell::tui::styled::{Line, Tone};
use openshell::text_map::TextMap;
use std::sync::Arc;

fn test_app() -> App {
    let mut app = App::new(
        "local".to_string(),
        "http://127.0.0.1:1".to_string(),
        "default".to_string(),
        0,
    );
    app.screen = Screen::Dashboard;
    app
}

fn text(line: &Line) -> String {
    line.spans.iter().map(|span| span.content.as_str()).collect()
}

fn tone_of(line: &Line, content: &str) -> Tone {
    line.spans.iter().find(|span| span.content == content).unwrap().style.tone
}

fn chunk(status: &str) -> Arc<PolicyChunk> {
    Arc::new(PolicyChunk {
        id: "c".to_string(),
        status: status.to_string(),
        rule_name: "rule".to_string(),
        proposed_rule: None,
        rationale: String::new(),
        security_notes: String::new(),
        confidence_label: "0%".to_string(),
        binary: String::new(),
        hit_count: 0,
        first_seen_ms: 0,
        last_seen_ms: 0,
        validation_result: String::new(),
        application_error: String::new(),
        rejection_reason: String::new(),
    })
}

#[test]
fn the_title_tells_where_one_is() {
    let mut app = test_app();
    app.gateway.gateways.push(GatewayEntry {
        name: "local".to_string(),
        endpoint: "http://127.0.0.1:1".to_string(),
        is_remote: false,
        source: Some(GatewayMetadataSource::User),
    });
    app.status_text = "Healthy".to_string();
    let title = app.title_bar();
    assert_eq!(
        text(&title),
        " >_ OpenShell  ALPHA  | Current Gateway: local [user] (Healthy) | Workspace: default | \
         Dashboard"
    );
    assert_eq!(tone_of(&title, "Healthy"), Tone::StatusOk);

    app.screen = Screen::Sandbox;
    app.workspace.all_workspaces = true;
    app.status_text = "Degraded: slow".to_string();
    let title = app.title_bar();
    assert!(text(&title).ends_with("Workspace: all | Sandbox: -"));
    assert_eq!(tone_of(&title, "Degraded: slow"), Tone::StatusWarn);
    app.sandboxes.sandbox_names.push("demo".to_string());
    app.gateway.gateways.clear();
    app.status_text = "Unhealthy".to_string();
    let title = app.title_bar();
    assert!(text(&title).ends_with("Sandbox: demo"));
    assert!(text(&title).contains("[unknown]"));
    assert_eq!(tone_of(&title, "Unhealthy"), Tone::StatusErr);
    app.status_text = "connecting...".to_string();
    assert_eq!(tone_of(&app.title_bar(), "connecting..."), Tone::Muted);
}

#[test]
fn the_dashboard_offers_its_keys() {
    let mut app = test_app();
    assert_eq!(
        text(&app.nav_bar()),
        " [Tab] Switch Panel  [j/k] Navigate  [Enter] Select  |  [:] Command  [q] Quit"
    );
    app.focus = Focus::Sandboxes;
    assert_eq!(
        text(&app.nav_bar()),
        " [Tab] Switch Panel  [j/k] Navigate  [Enter] Select  [c] Create Sandbox  [w] Workspace  \
         |  [:] Command  [q] Quit"
    );
    app.focus = Focus::Providers;
    app.provider.middle_pane_tab = MiddlePaneTab::Providers;
    assert_eq!(
        text(&app.nav_bar()),
        " [Tab] Switch Panel  [h/l] Switch Tab  [j/k] Navigate  [Enter] Detail  [c] Create  \
         [u] Update  [d] Delete  |  [:] Command  [q] Quit"
    );
    app.provider.providers_v2_enabled = true;
    assert_eq!(
        text(&app.nav_bar()),
        " [Tab] Switch Panel  [h/l] Switch Tab  [j/k] Navigate  [Enter] Detail  read-only  |  \
         [:] Command  [q] Quit"
    );
    app.provider.middle_pane_tab = MiddlePaneTab::GlobalSettings;
    assert_eq!(
        text(&app.nav_bar()),
        " [Tab] Switch Panel  [h/l] Switch Tab  [j/k] Navigate  [Enter] Edit  [d] Delete  |  \
         [:] Command  [q] Quit"
    );
}

#[test]
fn the_sandbox_screen_offers_its_keys() {
    let mut app = test_app();
    app.screen = Screen::Sandbox;
    app.focus = Focus::SandboxLogs;
    app.logs.log_source_filter = LogSourceFilter::All;
    let bar = app.nav_bar();
    assert_eq!(
        text(&bar),
        " [j/k] Navigate  [Enter] Detail  [g/G] Top/Bottom  [f] Autoscroll  [s] Source: all  \
         [y] Copy  [Y] Copy All  [v] Select  [r] Rules  |  [Esc] Policy  [q] Quit"
    );
    assert_eq!(tone_of(&bar, " Autoscroll"), Tone::StatusOk);
    app.logs.log_autoscroll = false;
    assert!(text(&app.nav_bar()).contains("[f] Follow"));
    app.logs.log_selection_anchor = Some(0);
    assert_eq!(
        text(&app.nav_bar()),
        " [j/k] Extend  [y] Yank  [g/G] Top/Bottom  |  [Esc] Cancel  [q] Quit"
    );

    app.focus = Focus::SandboxPolicy;
    app.policy.sandbox_policy_tab = SandboxPolicyTab::Trust;
    assert_eq!(
        text(&app.nav_bar()),
        " [h/l] Switch Tab  [r] Refresh  [j/k] Scroll  |  [Esc] Back  [q] Quit"
    );
    app.policy.sandbox_policy_tab = SandboxPolicyTab::Settings;
    assert_eq!(
        text(&app.nav_bar()),
        " [h/l] Switch Tab  [j/k] Navigate  [Enter] Edit  [d] Delete  |  [Esc] Back  [q] Quit"
    );
    app.policy.sandbox_policy_tab = SandboxPolicyTab::Policy;
    assert_eq!(
        text(&app.nav_bar()),
        " [h] Switch Tab  [j/k] Scroll  [g/G] Top/Bottom  [s] Shell  [l] Logs  [r] Rules  \
         [d] Delete  |  [Esc] Back  [q] Quit"
    );
}

#[test]
fn rules_are_offered_the_decisions_that_fit() {
    let mut app = test_app();
    app.screen = Screen::Sandbox;
    app.focus = Focus::SandboxDraft;
    let decisions = |app: &App| {
        let bar = text(&app.nav_bar());
        let from = bar.find(" Detail").unwrap() + " Detail".len();
        let to = bar.find("  [p] Policy").unwrap();
        bar[from..to].to_string()
    };
    assert_eq!(decisions(&app), "");
    for (status, offered) in [
        ("pending", "  [a] Approve  [x] Reject  [A] Approve All"),
        ("approved", "  [x] Revoke"),
        ("rejected", "  [a] Approve"),
        ("other", ""),
    ] {
        app.draft.draft_chunks = vec![chunk(status)];
        assert_eq!(decisions(&app), offered);
    }
}

#[test]
fn the_command_line_shows_what_is_typed() {
    let mut app = test_app();
    assert_eq!(text(&app.command_bar()), "");
    app.input_mode = InputMode::Command;
    app.command_input = "quit".to_string();
    assert_eq!(text(&app.command_bar()), " :quit_");
}

#[test]
fn the_views_of_a_sandbox_are_told_apart() {
    let mut app = test_app();
    app.focus = Focus::SandboxLogs;
    assert_eq!(app.sandbox_view(), SandboxView::Logs);
    app.focus = Focus::SandboxDraft;
    assert_eq!(app.sandbox_view(), SandboxView::Draft);
    app.focus = Focus::SandboxPolicy;
    app.policy.sandbox_policy_tab = SandboxPolicyTab::Trust;
    assert_eq!(app.sandbox_view(), SandboxView::Trust);
    app.policy.sandbox_policy_tab = SandboxPolicyTab::Settings;
    assert_eq!(app.sandbox_view(), SandboxView::Settings);
    app.policy.sandbox_policy_tab = SandboxPolicyTab::Policy;
    assert_eq!(app.sandbox_view(), SandboxView::Policy);
}

#[test]
fn popups_show_what_is_there() {
    let mut app = test_app();
    app.focus = Focus::SandboxLogs;
    app.logs.log_detail_index = Some(0);
    assert_eq!(app.shown_log_detail(), None);
    app.logs.sandbox_log_lines.push(LogLine {
        timestamp_ms: 0,
        level: "INFO".to_string(),
        source: "gateway".to_string(),
        target: String::new(),
        message: "m".to_string(),
        fields: TextMap::new(),
    });
    assert_eq!(app.shown_log_detail(), Some(0));
    app.focus = Focus::SandboxDraft;
    assert_eq!(app.shown_log_detail(), None);

    app.draft.draft_detail_open = true;
    assert_eq!(app.shown_draft_detail(), None);
    app.draft.draft_chunks = vec![chunk("pending"), chunk("approved")];
    app.draft.draft_selected = 1;
    assert_eq!(app.shown_draft_detail(), Some(1));
    assert!(!app.shows_approve_all());
    app.draft.approve_all_confirm_open = true;
    assert!(!app.shows_approve_all());
    app.draft.approve_all_confirm_chunks = vec![chunk("pending")];
    assert!(app.shows_approve_all());
    app.note_detail_metrics(DetailMetrics { total_rows: 30, body_height: 12 });
    assert_eq!(app.draft.draft_detail_max_scroll(), 18);
}

#[test]
fn the_editor_shows_the_value_and_the_error() {
    let mut edit = SettingEditState { index: 0, input: "yes".to_string(), error: None };
    let lines: Vec<String> =
        edit_lines("ocsf_enabled", SettingValueKind::Bool, &edit).iter().map(text).collect();
    assert_eq!(
        lines,
        vec![
            " Edit: ocsf_enabled (bool) ",
            "",
            "Value: yes_",
            "",
            "[Enter] Confirm  [Esc] Cancel"
        ]
    );
    edit.error = Some("expected a boolean".to_string());
    let lines: Vec<String> =
        edit_lines("ocsf_enabled", SettingValueKind::Bool, &edit).iter().map(text).collect();
    assert_eq!(lines.len(), 7);
    assert_eq!(lines[4], "expected a boolean");
}

#[test]
fn fields_show_a_label_and_a_cursor() {
    let (label, content) = text_field("Name", "", "optional", false, "_");
    assert_eq!((text(&label).as_str(), text(&content).as_str()), ("Name:  optional", "  -"));
    let (label, content) = text_field("Name", "demo", "", false, "_");
    assert_eq!((text(&label).as_str(), text(&content).as_str()), ("Name:", "  demo"));
    let (label, content) = text_field("Name", "", "", true, "█");
    assert_eq!(text(&content), "  █");
    assert_eq!(label.spans[0].style.tone, Tone::AccentBold);
}
