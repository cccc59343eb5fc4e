use openshell::appraisal::{
    GetSandboxAttestationResponse, SandboxAttestationMeasurement,
    SandboxAttestationTrustworthinessVector,
};
use openshell::text_map::TextMap;
use openshell::tui::draft::{pending_chunks, DraftOutcome, DraftPane};
use openshell::tui::draft_view::{detail_lines, show_rule_row};
use openshell::tui::keys::{KeyCode, KeyEvent};
use openshell::tui::measure::{display_width, truncate_display, truncate_str, wrap_value};
use openshell::tui::policy::{
    L7Allow, L7DenyRule, L7QueryMatcher, L7Rule, NetworkBinary, NetworkEndpoint, NetworkPolicyRule,
    PolicyChunk,
};
use openshell::tui::popups::{
    approve_all_height, approve_all_lines, detail_popup, hint_units, pack_hints,
};
use openshell::tui::rule_text::{
    append_query_matchers, approval_annotation, endpoint_layer_label, format_allow_rule,
    format_deny_rule, format_endpoint_details, format_endpoint_summary, format_short_time,
    non_empty_or, rejection_guidance, validation_issue_summary, ApprovalAnnotationKind,
};
use openshell::tui::styled::Line;
use openshell::tui::trust::TrustPane;
use openshell::tui::trust_view::push_field;
use std::sync::Arc;

fn expected_columns(text: &str) -> usize {
    text.chars()
        .map(|c| {
            let wide = ('\u{1100}'..='\u{115f}').contains(&c)
                || ('\u{2e80}'..='\u{a4cf}').contains(&c)
                || ('\u{ac00}'..='\u{d7a3}').contains(&c)
                || ('\u{f900}'..='\u{faff}').contains(&c)
                || ('\u{fe30}'..='\u{fe6f}').contains(&c)
                || ('\u{ff00}'..='\u{ff60}').contains(&c)
                || ('\u{ffe0}'..='\u{ffe6}').contains(&c);
            usize::from(wide) + 1
        })
        .sum()
}

fn make_chunk(status: &str, rejection_reason: &str) -> PolicyChunk {
    PolicyChunk {
        id: String::new(),
        status: status.to_string(),
        rule_name: String::new(),
        proposed_rule: None,
        rationale: String::new(),
        security_notes: String::new(),
        confidence_label: "0%".to_string(),
        binary: String::new(),
        hit_count: 0,
        first_seen_ms: 0,
        last_seen_ms: 0,
        validation_result: String::new(),
        application_error: String::new(),
        rejection_reason: rejection_reason.to_string(),
    }
}

fn named(mut chunk: PolicyChunk) -> PolicyChunk {
    chunk.rule_name = "allow-github".to_string();
    chunk
}

fn text(line: &Line) -> String {
    line.spans.iter().map(|span| span.content.as_str()).collect()
}

fn texts(lines: &[Line]) -> Vec<String> {
    lines.iter().map(text).collect()
}

#[test]
fn rejected_chunk_exposes_its_reason() {
    let chunk = make_chunk("rejected", "too broad: allows any port");
    assert_eq!(
        rejection_guidance(&chunk),
        Some("too broad: allows any port")
    );
}

#[test]
fn approved_chunk_hides_stale_reason() {
    let chunk = make_chunk("approved", "too broad: allows any port");
    assert_eq!(rejection_guidance(&chunk), None);
}

#[test]
fn pending_chunk_has_no_guidance() {
    assert_eq!(rejection_guidance(&make_chunk("pending", "")), None);
}

#[test]
fn blank_reason_is_dropped() {
    assert_eq!(rejection_guidance(&make_chunk("rejected", "")), None);
    assert_eq!(rejection_guidance(&make_chunk("rejected", "   \n")), None);
}

#[test]
fn reason_is_trimmed() {
    let chunk = make_chunk("rejected", "  needs a narrower host  ");
    assert_eq!(rejection_guidance(&chunk), Some("needs a narrower host"));
}

#[test]
fn long_reason_truncates_for_the_list_row() {
    let reason = "rejected because the endpoint list is far too permissive";
    let shown = truncate_display(reason, 32);
    assert_eq!(display_width(&shown), 32);
    assert!(shown.ends_with("..."));
    assert!(shown.starts_with("rejected because"));
}

#[test]
fn short_reason_is_not_truncated() {
    assert_eq!(truncate_str("too broad", 32), "too broad");
}

#[test]
fn wrap_value_breaks_on_word_boundaries() {
    assert_eq!(
        wrap_value("alpha beta gamma", 11),
        vec!["alpha beta", "gamma"]
    );
}

#[test]
fn wrap_value_hard_breaks_a_word_longer_than_the_width() {
    assert_eq!(wrap_value("abcdefghij", 4), vec!["abcd", "efgh", "ij"]);
}

#[test]
fn wrap_value_always_returns_at_least_one_row() {
    assert_eq!(wrap_value("", 10), vec![String::new()]);
}

#[test]
fn wrap_value_never_exceeds_the_width() {
    let text = "reject this rule because the endpoint list is far too permissive";
    for row in wrap_value(text, 17) {
        assert!(display_width(&row) <= 17, "row too wide: {row:?}");
    }
}

#[test]
fn wrap_value_measures_display_columns_not_chars() {
    let cjk = "这条规则的范围太广".repeat(20);
    for row in wrap_value(&cjk, 40) {
        assert!(
            expected_columns(&row) <= 40,
            "row is {} columns: {row:?}",
            expected_columns(&row)
        );
    }

    let mixed = "scope 这条规则 to docs 路径 only ".repeat(20);
    for row in wrap_value(&mixed, 33) {
        assert!(
            expected_columns(&row) <= 33,
            "row is {} columns: {row:?}",
            expected_columns(&row)
        );
    }
}

#[test]
fn truncate_display_counts_columns_not_chars() {
    let cjk = "这条规则的范围太广".repeat(10);
    let shown = truncate_display(&cjk, 32);
    assert!(
        expected_columns(&shown) <= 32,
        "truncated value is {} columns",
        expected_columns(&shown)
    );
    assert!(shown.ends_with("..."));
    assert_eq!(truncate_display("too broad", 32), "too broad");
}

fn render(chunk: &PolicyChunk, width: u16, height: u16, scroll: usize) -> (String, usize) {
    let popup = detail_popup(chunk, width, height, scroll);
    let max_scroll = popup
        .metrics
        .total_rows
        .saturating_sub(popup.metrics.body_height);
    let shown = texts(&popup.lines)
        .into_iter()
        .skip(popup.scroll)
        .take(popup.metrics.body_height)
        .chain(texts(&popup.footer.hints).into_iter().take(popup.footer.rows));
    let columns = usize::from(popup.width) - 4;
    let mut screen = String::new();
    for row in shown {
        assert!(expected_columns(&row) <= columns, "row is clipped: {row:?}");
        screen.push_str(&row);
        screen.push('\n');
    }
    (screen, max_scroll)
}

fn long_reason() -> String {
    let mut reason = String::from("PREFIX_MARKER ");
    while reason.len() < 1980 {
        reason.push_str("this rule is far too broad and must be narrowed; ");
    }
    reason.push_str(" SUFFIX_MARKER");
    reason
}

#[test]
fn long_guidance_head_and_tail_are_both_reachable() {
    let chunk = named(make_chunk("rejected", &long_reason()));

    let (top, max_scroll) = render(&chunk, 80, 24, 0);
    assert!(max_scroll > 0, "content should overflow an 80x24 popup");
    assert!(
        top.contains("PREFIX_MARKER"),
        "head not visible at scroll 0"
    );

    let (bottom, _) = render(&chunk, 80, 24, max_scroll);
    assert!(
        bottom.contains("SUFFIX_MARKER"),
        "tail not reachable at max scroll"
    );
}

#[test]
fn action_hints_stay_visible_at_every_scroll_position() {
    let chunk = named(make_chunk("rejected", &long_reason()));

    let (top, max_scroll) = render(&chunk, 80, 24, 0);
    let (bottom, _) = render(&chunk, 80, 24, max_scroll);
    for (label, screen) in [("top", &top), ("bottom", &bottom)] {
        assert!(screen.contains("Close"), "close hint missing at {label}");
        assert!(
            screen.contains("Approve"),
            "approve hint missing at {label}"
        );
        assert!(screen.contains("Scroll"), "scroll hint missing at {label}");
    }
}

#[test]
fn scrolling_past_the_end_is_clamped_to_the_last_page() {
    let chunk = named(make_chunk("rejected", &long_reason()));
    let (_, max_scroll) = render(&chunk, 80, 24, 0);
    let (clamped, _) = render(&chunk, 80, 24, max_scroll + 500);
    let (last, _) = render(&chunk, 80, 24, max_scroll);
    assert_eq!(
        clamped, last,
        "over-scrolling should clamp to the last page"
    );
}

#[test]
fn long_rationale_tail_is_reachable_on_a_pending_chunk() {
    let mut rationale = String::from("PREFIX_MARKER ");
    while rationale.len() < 1980 {
        rationale.push_str("the agent needs broad network access; ");
    }
    rationale.push_str(" SUFFIX_MARKER");
    let mut chunk = named(make_chunk("pending", ""));
    chunk.rationale = rationale;

    let (_, max_scroll) = render(&chunk, 80, 24, 0);
    let (bottom, _) = render(&chunk, 80, 24, max_scroll);
    assert!(bottom.contains("SUFFIX_MARKER"));
    assert!(bottom.contains("Close"));
}

#[test]
fn cjk_guidance_is_fully_reachable_at_80x24() {
    const MARKERS: usize = 16;
    let mut reason = String::new();
    for i in 0..MARKERS {
        reason.push_str(&format!("M{i:02}"));
        reason.push_str(&"这条规则范围太广".repeat(4));
    }
    let chunk = named(make_chunk("rejected", &reason));

    let (_, max_scroll) = render(&chunk, 80, 24, 0);
    assert!(max_scroll > 0, "content should overflow an 80x24 popup");

    let mut seen = String::new();
    for scroll in 0..=max_scroll {
        seen.push_str(&render(&chunk, 80, 24, scroll).0);
    }
    for i in 0..MARKERS {
        let marker = format!("M{i:02}");
        assert!(
            seen.contains(&marker),
            "guidance marker {marker} was clipped and is unreachable at every scroll offset"
        );
    }
}

#[test]
fn short_content_does_not_scroll() {
    let chunk = named(make_chunk("rejected", "too broad"));
    let (screen, max_scroll) = render(&chunk, 80, 24, 0);
    assert_eq!(max_scroll, 0, "short content should not be scrollable");
    assert!(screen.contains("too broad"));
    assert!(
        !screen.contains("Scroll"),
        "scroll hint should be hidden when everything fits"
    );
}

fn denied_chunk(status: &str, reason: &str) -> PolicyChunk {
    let mut chunk = named(make_chunk(status, reason));
    chunk.confidence_label = "82%".to_string();
    chunk.hit_count = 3;
    chunk.first_seen_ms = 1_700_000_000_000;
    chunk.last_seen_ms = 1_700_000_100_000;
    chunk
}

#[test]
fn denied_timestamps_survive_a_narrow_popup() {
    for width in [60u16, 70u16, 80u16] {
        let chunk = denied_chunk("rejected", "scope this to docs/ paths only");
        let (screen, _) = render(&chunk, width, 24, 0);
        assert!(
            screen.contains("22:13:20"),
            "first-seen lost at width {width}"
        );
        assert!(
            screen.contains("22:15:00"),
            "last-seen lost at width {width}"
        );
    }
}

#[test]
fn close_hint_survives_a_narrow_popup_with_scrollable_content() {
    for width in [60u16, 70u16, 80u16] {
        let mut chunk = denied_chunk("pending", "");
        chunk.rationale = long_reason();
        let (screen, max_scroll) = render(&chunk, width, 24, 0);
        assert!(max_scroll > 0, "content should overflow at width {width}");
        assert!(screen.contains("Close"), "close hint lost at width {width}");
        assert!(
            screen.contains("Approve"),
            "approve hint lost at width {width}"
        );
        assert!(
            screen.contains("Reject"),
            "reject hint lost at width {width}"
        );
    }
}

#[test]
fn hints_pack_onto_one_row_when_they_fit() {
    let chunk = denied_chunk("pending", "");
    let rows = pack_hints(&hint_units(&chunk, true), 200);
    assert_eq!(rows.len(), 1);
}

#[test]
fn hints_spill_onto_a_second_row_when_they_do_not_fit() {
    let chunk = denied_chunk("pending", "");
    let rows = pack_hints(&hint_units(&chunk, true), 30);
    assert!(rows.len() > 1, "hints should wrap at 30 columns");
}

#[test]
fn long_measurements_are_split_into_scrollable_rows() {
    let mut lines = Vec::new();
    push_field(&mut lines, "Measurement: ", &"ab".repeat(48), 32);
    assert!(lines.len() > 1);
    assert!(lines.iter().all(|line| display_width(&text(line)) <= 32));
    let rendered = texts(&lines).concat();
    assert!(rendered.replace(' ', "").contains(&"ab".repeat(48)));
}

fn allow(method: &str, path: &str) -> L7Allow {
    L7Allow {
        method: method.to_string(),
        path: path.to_string(),
        command: String::new(),
        query: TextMap::new(),
        operation_type: String::new(),
        operation_name: String::new(),
        fields: Vec::new(),
    }
}

fn endpoint() -> NetworkEndpoint {
    NetworkEndpoint {
        host: "api.github.com".to_string(),
        port: 443,
        protocol: String::new(),
        tls: String::new(),
        enforcement: String::new(),
        access: String::new(),
        path: String::new(),
        rules: Vec::new(),
        deny_rules: Vec::new(),
        request_body_credential_rewrite: false,
        websocket_credential_rewrite: false,
    }
}

#[test]
fn endpoints_are_described() {
    let mut plain = endpoint();
    assert!(format_endpoint_summary(&plain).contains("api.github.com:443"));
    assert!(!endpoint_layer_label(&plain).is_empty());
    plain.rules.push(L7Rule { allow: Some(allow("GET", "/repos/**")) });
    plain.deny_rules.push(L7DenyRule {
        method: "DELETE".to_string(),
        path: "/".to_string(),
        command: String::new(),
        query: TextMap::new(),
        operation_type: String::new(),
        operation_name: String::new(),
        fields: Vec::new(),
    });
    assert_eq!(format_allow_rule(&allow("GET", "/repos/**")), "GET /repos/**");
    assert_eq!(format_deny_rule(&plain.deny_rules[0]), "DELETE /");
    let details = format_endpoint_details(&plain).join("\n");
    assert!(details.contains("GET /repos/**"), "{details}");
    assert!(details.contains("DELETE /"), "{details}");
    let mut parts = vec!["GET".to_string()];
    let mut query = TextMap::new();
    query.insert(
        "b".to_string(),
        L7QueryMatcher { glob: String::new(), any: vec!["x".to_string(), "y".to_string()] },
    );
    query.insert("a".to_string(), L7QueryMatcher { glob: String::new(), any: Vec::new() });
    append_query_matchers(&mut parts, &query);
    assert_eq!(parts, vec!["GET", "query a=*, b in [x,y]"]);
    assert_eq!(non_empty_or("", "z"), "z");
    assert_eq!(non_empty_or("a", "z"), "a");
}

#[test]
fn texts_are_cut_by_their_characters() {
    assert_eq!(truncate_str("\u{65e5}\u{672c}\u{8a9e}", 4), "\u{65e5}\u{672c}\u{8a9e}");
    assert_eq!(truncate_str("\u{65e5}\u{672c}\u{8a9e}", 2), "\u{65e5}\u{672c}");
    assert_eq!(truncate_str("abcdef", 5), "ab...");
    assert_eq!(truncate_str("abcdef", 6), "abcdef");
}

#[test]
fn the_list_of_rules_says_why_it_is_locked_or_empty() {
    assert!(DraftPane::notice(false).is_none());
    let notice = DraftPane::notice(true).unwrap();
    assert_eq!(
        notice.spans[0].content,
        " Cannot approve rules while global policy is active "
    );
    let message = DraftPane::new().empty_message().unwrap();
    assert_eq!(
        message.spans[0].content,
        "No network rules yet. Denied connections will generate rules automatically."
    );
}

#[test]
fn times_of_day_are_short() {
    assert_eq!(format_short_time(0), "--:--:--");
    assert_eq!(format_short_time(-5), "--:--:--");
    assert_eq!(format_short_time(1_700_000_000_000), "22:13:20");
    assert_eq!(format_short_time(999), "00:00:00");
}

#[test]
fn only_a_clean_proof_makes_an_automatic_approval() {
    let mut chunk = make_chunk("approved", "");
    chunk.validation_result = "prover: no new findings".to_string();
    let annotation = approval_annotation(&chunk).expect("an annotation");
    assert_eq!(annotation.kind, ApprovalAnnotationKind::AutoApproved);
    assert_eq!(annotation.short_label, "auto-approved");
    let mut chunk = make_chunk("pending", "");
    chunk.validation_result = "broad_host: too wide\nother: x".to_string();
    let annotation = approval_annotation(&chunk).expect("an annotation");
    assert_eq!(annotation.kind, ApprovalAnnotationKind::RequiresReview);
    assert!(!validation_issue_summary(&chunk.validation_result).is_empty());
}

#[test]
fn rules_are_listed_and_detailed() {
    let mut chunk = denied_chunk("rejected", "too broad");
    chunk.proposed_rule = Some(NetworkPolicyRule {
        endpoints: vec![endpoint()],
        binaries: vec![NetworkBinary { path: "/usr/bin/curl".to_string() }],
    });
    chunk.security_notes = "watch out".to_string();
    let row = text(&show_rule_row(&chunk, true, false));
    assert!(row.contains("allow-github"), "{row}");
    let detail = texts(&detail_lines(&chunk, 60)).join("\n");
    for part in [
        "Status:     rejected",
        "Confidence: 82%",
        "Guidance:   too broad",
        "Denied:     3 connections  (first 22:13:20 / last 22:15:00)",
        "Endpoints:",
        "  -> api.github.com:443",
        "Binaries:",
        "  /usr/bin/curl",
        "! watch out",
    ] {
        assert!(detail.contains(part), "{part} is missing in:\n{detail}");
    }
}

#[test]
fn decisions_are_confirmed_and_blocked_by_a_global_policy() {
    let mut pane = DraftPane::new();
    pane.draft_chunks = vec![
        Arc::new(named(make_chunk("pending", ""))),
        Arc::new(named(make_chunk("approved", ""))),
    ];
    pane.draft_viewport_height = 5;
    assert_eq!(pending_chunks(&pane.draft_chunks).len(), 1);
    let outcome = pane.handle_key(KeyEvent::plain(KeyCode::Char('a')), true);
    assert!(matches!(outcome, DraftOutcome::CannotApprove));
    assert!(!pane.pending_draft_approve);
    pane.handle_key(KeyEvent::plain(KeyCode::Char('a')), false);
    assert!(pane.pending_draft_approve);
    pane.handle_key(KeyEvent::plain(KeyCode::Char('A')), false);
    assert!(pane.approve_all_confirm_open);
    assert!(!pane.pending_draft_approve_all);
    pane.handle_key(KeyEvent::plain(KeyCode::Char('y')), false);
    assert!(pane.pending_draft_approve_all);
    assert_eq!(approve_all_height(1), 8);
    assert_eq!(approve_all_height(40), 19);
    let lines = texts(&approve_all_lines(&pending_chunks(&pane.draft_chunks), 60)).join("\n");
    assert!(lines.contains("allow-github"), "{lines}");
}

#[test]
fn listed_rules_are_cut_by_the_bytes_of_their_texts() {
    let mut chunk = make_chunk("pending", "");
    chunk.rule_name = "\u{8a9e}".repeat(10);
    let mut reached = endpoint();
    reached.host = "h".repeat(16);
    reached.port = 0;
    let summary = format_endpoint_summary(&reached);
    let room = chunk.rule_name.len() + summary.len();
    chunk.proposed_rule = Some(NetworkPolicyRule {
        endpoints: vec![reached],
        binaries: Vec::new(),
    });
    let name = chunk.rule_name.clone();
    let chunks = vec![Arc::new(chunk)];

    let whole = &approve_all_lines(&chunks, room + 7)[2];
    assert_eq!(text(whole), format!("  -> {name}  {summary}"));
    let cut = &approve_all_lines(&chunks, room + 6)[2];
    let half = summary.len().min((room - 1) / 2);
    assert_eq!(
        text(cut),
        format!("  -> {name}  {}", truncate_str(&summary, half))
    );
    let narrow = &approve_all_lines(&chunks, 21)[2];
    assert_eq!(
        text(narrow),
        format!("  -> {}  {}", truncate_str(&name, 7), truncate_str(&summary, 7))
    );
}

#[test]
fn appraisals_are_shown_row_by_row() {
    let mut pane = TrustPane::new();
    assert_eq!(
        texts(&pane.lines(40)),
        vec!["Press [r] to request a fresh appraisal."]
    );
    pane.sandbox_attestation = Some(GetSandboxAttestationResponse {
        ear_status: "affirming".to_string(),
        policy_id: "default".to_string(),
        ar4si_vector: Some(SandboxAttestationTrustworthinessVector {
            hardware: 2,
            executables: 3,
            configuration: 2,
            file_system: 2,
        }),
        measurements: vec![SandboxAttestationMeasurement {
            component: "kernel".to_string(),
            algorithm: "SHA-384".to_string(),
            measurement: "cc".repeat(48),
            references: vec!["cc".repeat(48)],
        }],
    });
    let lines = pane.lines(40);
    let shown = texts(&lines).join("\n");
    assert!(shown.contains("affirming"), "{shown}");
    assert!(shown.contains("kernel"), "{shown}");
    pane.trust_scroll = 500;
    pane.fit(lines.len(), 5);
    assert_eq!(pane.trust_scroll, lines.len() - 5);
    assert_eq!(
        pane.position(),
        format!(" [{}/{}] ", lines.len() - 4, lines.len())
    );
}

#[test]
fn white_space_is_what_unicode_says() {
    for c in '\u{0}'..=char::MAX {
        assert_eq!(
            openshell::text::is_white_space(c),
            c.is_whitespace(),
            "{:x}",
            c as u32
        );
    }
}
