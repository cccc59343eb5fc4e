//! The bars around the panes, the overlays over them, and which of them show.

use vstd::prelude::*;
use crate::text;
use crate::text::{all_together, holds_text, together};
use crate::tui::app::App;
use crate::tui::draft::{approvable, rejectable, DraftPane};
use crate::tui::model::{
    source_text, Focus, GatewayEntry, InputMode, MiddlePaneTab, SandboxPolicyTab, Screen,
    SettingEditState, SettingValueKind,
};
use crate::tui::popups::DetailMetrics;
use crate::tui::scroll::{less, smaller};
use crate::tui::styled::{
    add_span, blank, line, line_of, line_views, piece, row, span, span_views, text_span, Line,
    LineView, Span, SpanView, Tone,
};

verus! {

/// The tone for a gateway's status.
pub open spec fn gateway_tone(status: Seq<char>) -> Tone {
    if holds_text(status, "Healthy"@) {
        Tone::StatusOk
    } else if holds_text(status, "Degraded"@) {
        Tone::StatusWarn
    } else if holds_text(status, "Unhealthy"@) {
        Tone::StatusErr
    } else {
        Tone::Muted
    }
}

fn tone_for_gateway(status: &str) -> (tone: Tone)
    ensures
        tone == gateway_tone(status@),
{
    if text::contains(status, "Healthy") {
        Tone::StatusOk
    } else if text::contains(status, "Degraded") {
        Tone::StatusWarn
    } else if text::contains(status, "Unhealthy") {
        Tone::StatusErr
    } else {
        Tone::Muted
    }
}

/// Where the metadata of the gateway called `name` came from.
pub open spec fn source_of(gateways: Seq<GatewayEntry>, name: Seq<char>) -> Seq<char>
    decreases gateways.len(),
{
    if gateways.len() == 0 {
        "unknown"@
    } else if gateways[0].name@ == name {
        source_text(gateways[0].source)
    } else {
        source_of(gateways.drop_first(), name)
    }
}

fn find_source(gateways: &Vec<GatewayEntry>, name: &str) -> (label: &'static str)
    ensures
        label@ == source_of(gateways@, name@),
{
    let n: usize = gateways.len();
    let mut i: usize = 0;
    assert(gateways@.skip(0) =~= gateways@);
    while i < n
        invariant
            i <= n,
            n == gateways@.len(),
            source_of(gateways@.skip(i as int), name@) == source_of(gateways@, name@),
        decreases n - i,
    {
        assert(gateways@.skip(i as int)[0] == gateways@[i as int]);
        assert(gateways@.skip(i as int).drop_first() =~= gateways@.skip(i as int + 1));
        if text::same(gateways[i].name.as_str(), name) {
            return gateways[i].source_label();
        }
        i = i + 1;
    }
    "unknown"
}

/// The name of the workspace shown.
pub open spec fn workspace_text(app: App) -> Seq<char> {
    if app.workspace.all_workspaces {
        "all"@
    } else {
        app.workspace.current_workspace@
    }
}

/// The title bar.
pub open spec fn title_row(app: App) -> LineView {
    let list = app.sandboxes;
    row(
        seq![
            piece(" >_ OpenShell "@, Tone::AccentBold),
            piece(" ALPHA "@, Tone::Badge),
            piece(" | "@, Tone::Muted),
            piece("Current Gateway: "@, Tone::Text),
            piece(app.gateway.gateway_name@, Tone::Heading),
            piece(" ["@, Tone::Muted),
            piece(source_of(app.gateway.gateways@, app.gateway.gateway_name@), Tone::Muted),
            piece("] ("@, Tone::Muted),
            piece(app.status_text@, gateway_tone(app.status_text@)),
            piece(")"@, Tone::Muted),
            piece(" | "@, Tone::Muted),
            piece("Workspace: "@, Tone::Text),
            piece(workspace_text(app), Tone::Heading),
            piece(" | "@, Tone::Muted),
        ] + if app.screen == Screen::Sandbox {
            seq![
                piece("Sandbox: "@, Tone::Text),
                piece(
                    if list.sandbox_selected < list.sandbox_names@.len() {
                        list.sandbox_names@[list.sandbox_selected as int]@
                    } else {
                        "-"@
                    },
                    Tone::Heading,
                ),
            ]
        } else {
            seq![piece("Dashboard"@, Tone::Text)]
        },
    )
}

/// A hint of the nav bar: a key and what it does.
pub open spec fn nav_hint(key: Seq<char>, label: Seq<char>) -> Seq<SpanView> {
    seq![piece(key, Tone::KeyHint), piece(label, Tone::Text)]
}

/// Hints of the nav bar, with gaps between them.
pub open spec fn spaced(items: Seq<Seq<SpanView>>) -> Seq<SpanView>
    decreases items.len(),
{
    if items.len() == 0 {
        Seq::empty()
    } else if items.len() == 1 {
        items[0]
    } else {
        spaced(items.drop_last()) + seq![piece("  "@, Tone::Text)] + items.last()
    }
}

/// The hints at the end of the dashboard's nav bar.
pub open spec fn dashboard_tail() -> Seq<SpanView> {
    seq![
        piece("[:]"@, Tone::Muted),
        piece(" Command  "@, Tone::Muted),
        piece("[q]"@, Tone::Muted),
        piece(" Quit"@, Tone::Muted),
    ]
}

/// The hints at the end of the sandbox screen's nav bar; `back` says where the escape key leads.
pub open spec fn sandbox_tail(back: Seq<char>) -> Seq<SpanView> {
    seq![
        piece("[Esc]"@, Tone::Muted),
        piece(back, Tone::Muted),
        piece("  "@, Tone::Text),
        piece("[q]"@, Tone::Muted),
        piece(" Quit"@, Tone::Muted),
    ]
}

/// The hints of the dashboard's nav bar.
pub open spec fn dashboard_hints(app: App) -> Seq<Seq<SpanView>> {
    let panel = nav_hint("[Tab]"@, " Switch Panel"@);
    let tab = nav_hint("[h/l]"@, " Switch Tab"@);
    let navigate = nav_hint("[j/k]"@, " Navigate"@);
    let select = nav_hint("[Enter]"@, " Select"@);
    let detail = nav_hint("[Enter]"@, " Detail"@);
    match app.focus {
        Focus::Providers => if app.provider.middle_pane_tab == MiddlePaneTab::GlobalSettings {
            seq![
                panel,
                tab,
                navigate,
                nav_hint("[Enter]"@, " Edit"@),
                nav_hint("[d]"@, " Delete"@),
            ]
        } else if app.provider.providers_v2_enabled {
            seq![panel, tab, navigate, detail, seq![piece("read-only"@, Tone::Muted)]]
        } else {
            seq![
                panel,
                tab,
                navigate,
                detail,
                nav_hint("[c]"@, " Create"@),
                nav_hint("[u]"@, " Update"@),
                nav_hint("[d]"@, " Delete"@),
            ]
        },
        Focus::Sandboxes => seq![
            panel,
            navigate,
            select,
            nav_hint("[c]"@, " Create Sandbox"@),
            nav_hint("[w]"@, " Workspace"@),
        ],
        _ => seq![panel, navigate, select],
    }
}

/// The hints for the status of the selected rule.
pub open spec fn decision_hints(status: Seq<char>) -> Seq<Seq<SpanView>> {
    if status == "pending"@ {
        seq![
            nav_hint("[a]"@, " Approve"@),
            nav_hint("[x]"@, " Reject"@),
            nav_hint("[A]"@, " Approve All"@),
        ]
    } else if status == "approved"@ {
        seq![nav_hint("[x]"@, " Revoke"@)]
    } else if status == "rejected"@ {
        seq![nav_hint("[a]"@, " Approve"@)]
    } else {
        Seq::empty()
    }
}

/// The status of the selected rule, or the empty text.
pub open spec fn selected_status(app: App) -> Seq<char> {
    let at = app.draft.cursor_row();
    if at < app.draft.draft_chunks@.len() {
        app.draft.draft_chunks@[at].status@
    } else {
        ""@
    }
}

/// The hints of the log pane.
pub open spec fn log_hints(app: App) -> Seq<Seq<SpanView>> {
    if app.logs.log_selection_anchor is Some {
        seq![
            nav_hint("[j/k]"@, " Extend"@),
            nav_hint("[y]"@, " Yank"@),
            nav_hint("[g/G]"@, " Top/Bottom"@),
        ]
    } else {
        seq![
            nav_hint("[j/k]"@, " Navigate"@),
            nav_hint("[Enter]"@, " Detail"@),
            nav_hint("[g/G]"@, " Top/Bottom"@),
            if app.logs.log_autoscroll {
                seq![piece("[f]"@, Tone::KeyHint), piece(" Autoscroll"@, Tone::StatusOk)]
            } else {
                nav_hint("[f]"@, " Follow"@)
            },
            nav_hint("[s]"@, " Source: "@ + app.logs.log_source_filter.name()),
            nav_hint("[y]"@, " Copy"@),
            nav_hint("[Y]"@, " Copy All"@),
            nav_hint("[v]"@, " Select"@),
            nav_hint("[r]"@, " Rules"@),
        ]
    }
}

/// The hints of the sandbox screen's nav bar.
pub open spec fn sandbox_hints(app: App) -> Seq<Seq<SpanView>> {
    match app.focus {
        Focus::SandboxLogs => log_hints(app),
        Focus::SandboxDraft => seq![
            nav_hint("[j/k]"@, " Navigate"@),
            nav_hint("[Enter]"@, " Detail"@),
        ] + decision_hints(selected_status(app)) + seq![
            nav_hint("[p]"@, " Policy"@),
            nav_hint("[l]"@, " Logs"@),
        ],
        _ => match app.policy.sandbox_policy_tab {
            SandboxPolicyTab::Trust => seq![
                nav_hint("[h/l]"@, " Switch Tab"@),
                nav_hint("[r]"@, " Refresh"@),
                nav_hint("[j/k]"@, " Scroll"@),
            ],
            SandboxPolicyTab::Settings => seq![
                nav_hint("[h/l]"@, " Switch Tab"@),
                nav_hint("[j/k]"@, " Navigate"@),
                nav_hint("[Enter]"@, " Edit"@),
                nav_hint("[d]"@, " Delete"@),
            ],
            SandboxPolicyTab::Policy => seq![
                nav_hint("[h]"@, " Switch Tab"@),
                nav_hint("[j/k]"@, " Scroll"@),
                nav_hint("[g/G]"@, " Top/Bottom"@),
                nav_hint("[s]"@, " Shell"@),
                nav_hint("[l]"@, " Logs"@),
                nav_hint("[r]"@, " Rules"@),
                nav_hint("[d]"@, " Delete"@),
            ],
        },
    }
}

/// Where the escape key leads on the sandbox screen.
pub open spec fn sandbox_back(app: App) -> Seq<char> {
    if app.focus == Focus::SandboxLogs {
        if app.logs.log_selection_anchor is Some {
            " Cancel"@
        } else {
            " Policy"@
        }
    } else {
        " Back"@
    }
}

/// A nav bar with the given hints and end.
pub open spec fn nav_row(items: Seq<Seq<SpanView>>, tail: Seq<SpanView>) -> LineView {
    row(
        seq![piece(" "@, Tone::Text)] + spaced(items) + seq![piece("  |  "@, Tone::Border)] + tail,
    )
}

/// The nav bar.
pub open spec fn nav_bar_row(app: App) -> LineView {
    if app.screen == Screen::Sandbox {
        nav_row(sandbox_hints(app), sandbox_tail(sandbox_back(app)))
    } else {
        nav_row(dashboard_hints(app), dashboard_tail())
    }
}

/// A hint of the nav bar.
struct NavHint {
    pieces: Vec<Span>,
}

spec fn hint_views(items: Seq<NavHint>) -> Seq<Seq<SpanView>> {
    items.map_values(|item: NavHint| span_views(item.pieces@))
}

fn nav(key: &str, label: &str) -> (item: NavHint)
    ensures
        span_views(item.pieces@) == nav_hint(key@, label@),
{
    let mut pieces: Vec<Span> = Vec::new();
    pieces.push(span(key, Tone::KeyHint));
    pieces.push(span(label, Tone::Text));
    assert(span_views(pieces@) =~= nav_hint(key@, label@));
    NavHint { pieces }
}

fn add_pieces(spans: &mut Vec<Span>, pieces: &Vec<Span>)
    ensures
        span_views(final(spans)@) == span_views(old(spans)@) + span_views(pieces@),
{
    let ghost before = span_views(spans@);
    let ghost all = span_views(pieces@);
    let n: usize = pieces.len();
    let mut i: usize = 0;
    assert(span_views(spans@) =~= before + all.take(0));
    while i < n
        invariant
            i <= n,
            n == pieces@.len(),
            all == span_views(pieces@),
            span_views(spans@) == before + all.take(i as int),
        decreases n - i,
    {
        let s = Span { content: pieces[i].content.clone(), style: pieces[i].style };
        assert(all[i as int] == s@);
        assert(before + all.take(i as int + 1) =~= (before + all.take(i as int)).push(s@));
        add_span(spans, s);
        i = i + 1;
    }
    assert(all.take(n as int) =~= all);
}

fn nav_line(items: &Vec<NavHint>, tail: &Vec<Span>) -> (bar: Line)
    ensures
        bar@ == nav_row(hint_views(items@), span_views(tail@)),
{
    let ghost all = hint_views(items@);
    let mut spans: Vec<Span> = Vec::new();
    spans.push(span(" ", Tone::Text));
    let ghost head = seq![piece(" "@, Tone::Text)];
    let n: usize = items.len();
    let mut i: usize = 0;
    assert(span_views(spans@) =~= head + spaced(all.take(0)));
    while i < n
        invariant
            i <= n,
            n == items@.len(),
            all == hint_views(items@),
            span_views(spans@) == head + spaced(all.take(i as int)),
        decreases n - i,
    {
        let ghost done = all.take(i as int);
        let ghost next = all.take(i as int + 1);
        proof {
            assert(next.drop_last() =~= done);
            assert(next.last() == span_views(items@[i as int].pieces@));
            if i == 0 {
                assert(spaced(done) =~= Seq::empty());
                assert(next[0] == next.last());
            }
        }
        if i > 0 {
            add_span(&mut spans, span("  ", Tone::Text));
        }
        add_pieces(&mut spans, &items[i].pieces);
        assert(span_views(spans@) =~= head + spaced(next));
        i = i + 1;
    }
    assert(all.take(n as int) =~= all);
    add_span(&mut spans, span("  |  ", Tone::Border));
    add_pieces(&mut spans, tail);
    assert(span_views(spans@) =~= nav_row(all, span_views(tail@)).spans);
    line(spans)
}

fn show_dashboard_tail() -> (tail: Vec<Span>)
    ensures
        span_views(tail@) == dashboard_tail(),
{
    let mut tail: Vec<Span> = Vec::new();
    tail.push(span("[:]", Tone::Muted));
    tail.push(span(" Command  ", Tone::Muted));
    tail.push(span("[q]", Tone::Muted));
    tail.push(span(" Quit", Tone::Muted));
    assert(span_views(tail@) =~= dashboard_tail());
    tail
}

fn show_sandbox_tail(back: &str) -> (tail: Vec<Span>)
    ensures
        span_views(tail@) == sandbox_tail(back@),
{
    let mut tail: Vec<Span> = Vec::new();
    tail.push(span("[Esc]", Tone::Muted));
    tail.push(span(back, Tone::Muted));
    tail.push(span("  ", Tone::Text));
    tail.push(span("[q]", Tone::Muted));
    tail.push(span(" Quit", Tone::Muted));
    assert(span_views(tail@) =~= sandbox_tail(back@));
    tail
}

fn show_dashboard_hints(app: &App) -> (items: Vec<NavHint>)
    ensures
        hint_views(items@) == dashboard_hints(*app),
{
    let mut items: Vec<NavHint> = Vec::new();
    items.push(nav("[Tab]", " Switch Panel"));
    match app.focus {
        Focus::Providers => {
            items.push(nav("[h/l]", " Switch Tab"));
            items.push(nav("[j/k]", " Navigate"));
            if app.provider.middle_pane_tab == MiddlePaneTab::GlobalSettings {
                items.push(nav("[Enter]", " Edit"));
                items.push(nav("[d]", " Delete"));
            } else if app.provider.providers_v2_enabled {
                items.push(nav("[Enter]", " Detail"));
                let mut pieces: Vec<Span> = Vec::new();
                pieces.push(span("read-only", Tone::Muted));
                assert(span_views(pieces@) =~= seq![piece("read-only"@, Tone::Muted)]);
                items.push(NavHint { pieces });
            } else {
                items.push(nav("[Enter]", " Detail"));
                items.push(nav("[c]", " Create"));
                items.push(nav("[u]", " Update"));
                items.push(nav("[d]", " Delete"));
            }
        },
        Focus::Sandboxes => {
            items.push(nav("[j/k]", " Navigate"));
            items.push(nav("[Enter]", " Select"));
            items.push(nav("[c]", " Create Sandbox"));
            items.push(nav("[w]", " Workspace"));
        },
        _ => {
            items.push(nav("[j/k]", " Navigate"));
            items.push(nav("[Enter]", " Select"));
        },
    }
    assert(hint_views(items@) =~= dashboard_hints(*app));
    items
}

fn show_log_hints(app: &App) -> (items: Vec<NavHint>)
    ensures
        hint_views(items@) == log_hints(*app),
{
    let mut items: Vec<NavHint> = Vec::new();
    if app.logs.log_selection_anchor.is_some() {
        items.push(nav("[j/k]", " Extend"));
        items.push(nav("[y]", " Yank"));
        items.push(nav("[g/G]", " Top/Bottom"));
        assert(hint_views(items@) =~= log_hints(*app));
        return items;
    }
    items.push(nav("[j/k]", " Navigate"));
    items.push(nav("[Enter]", " Detail"));
    items.push(nav("[g/G]", " Top/Bottom"));
    if app.logs.log_autoscroll {
        let mut pieces: Vec<Span> = Vec::new();
        pieces.push(span("[f]", Tone::KeyHint));
        pieces.push(span(" Autoscroll", Tone::StatusOk));
        assert(span_views(pieces@) =~= seq![
            piece("[f]"@, Tone::KeyHint),
            piece(" Autoscroll"@, Tone::StatusOk),
        ]);
        items.push(NavHint { pieces });
    } else {
        items.push(nav("[f]", " Follow"));
    }
    let source = together(" Source: ", app.logs.log_source_filter.label());
    items.push(nav("[s]", source.as_str()));
    items.push(nav("[y]", " Copy"));
    items.push(nav("[Y]", " Copy All"));
    items.push(nav("[v]", " Select"));
    items.push(nav("[r]", " Rules"));
    assert(hint_views(items@) =~= log_hints(*app));
    items
}

fn show_draft_hints(app: &App) -> (items: Vec<NavHint>)
    requires
        app.wf(),
        app.focus == Focus::SandboxDraft,
    ensures
        hint_views(items@) == sandbox_hints(*app),
{
    let at: usize = app.draft.draft_scroll + app.draft.draft_selected;
    let status = if at < app.draft.draft_chunks.len() {
        app.draft.draft_chunks[at].status.as_str()
    } else {
        ""
    };
    let mut items: Vec<NavHint> = Vec::new();
    items.push(nav("[j/k]", " Navigate"));
    items.push(nav("[Enter]", " Detail"));
    if text::same(status, "pending") {
        items.push(nav("[a]", " Approve"));
        items.push(nav("[x]", " Reject"));
        items.push(nav("[A]", " Approve All"));
    } else if text::same(status, "approved") {
        items.push(nav("[x]", " Revoke"));
    } else if text::same(status, "rejected") {
        items.push(nav("[a]", " Approve"));
    }
    items.push(nav("[p]", " Policy"));
    items.push(nav("[l]", " Logs"));
    assert(hint_views(items@) =~= sandbox_hints(*app));
    items
}

fn show_tab_hints(tab: SandboxPolicyTab, Ghost(app): Ghost<App>) -> (items: Vec<NavHint>)
    requires
        app.policy.sandbox_policy_tab == tab,
        app.focus != Focus::SandboxLogs && app.focus != Focus::SandboxDraft,
    ensures
        hint_views(items@) == sandbox_hints(app),
{
    let mut items: Vec<NavHint> = Vec::new();
    match tab {
        SandboxPolicyTab::Trust => {
            items.push(nav("[h/l]", " Switch Tab"));
            items.push(nav("[r]", " Refresh"));
            items.push(nav("[j/k]", " Scroll"));
        },
        SandboxPolicyTab::Settings => {
            items.push(nav("[h/l]", " Switch Tab"));
            items.push(nav("[j/k]", " Navigate"));
            items.push(nav("[Enter]", " Edit"));
            items.push(nav("[d]", " Delete"));
        },
        SandboxPolicyTab::Policy => {
            items.push(nav("[h]", " Switch Tab"));
            items.push(nav("[j/k]", " Scroll"));
            items.push(nav("[g/G]", " Top/Bottom"));
            items.push(nav("[s]", " Shell"));
            items.push(nav("[l]", " Logs"));
            items.push(nav("[r]", " Rules"));
            items.push(nav("[d]", " Delete"));
        },
    }
    assert(hint_views(items@) =~= sandbox_hints(app));
    items
}

/// The views of the sandbox screen.
#[derive(Debug, Clone, Copy, PartialEq, Eq, Structural)]
pub enum SandboxView {
    Logs,
    Draft,
    Policy,
    Settings,
    Trust,
}

impl App {
    /// The title bar.
    pub fn title_bar(&self) -> (bar: Line)
        requires
            self.screen != Screen::Splash,
        ensures
            bar@ == title_row(*self),
    {
        let source = find_source(&self.gateway.gateways, self.gateway.gateway_name.as_str());
        let mut spans: Vec<Span> = Vec::new();
        spans.push(span(" >_ OpenShell ", Tone::AccentBold));
        spans.push(span(" ALPHA ", Tone::Badge));
        spans.push(span(" | ", Tone::Muted));
        spans.push(span("Current Gateway: ", Tone::Text));
        spans.push(span(self.gateway.gateway_name.as_str(), Tone::Heading));
        spans.push(span(" [", Tone::Muted));
        spans.push(span(source, Tone::Muted));
        spans.push(span("] (", Tone::Muted));
        spans.push(
            span(self.status_text.as_str(), tone_for_gateway(self.status_text.as_str())),
        );
        spans.push(span(")", Tone::Muted));
        spans.push(span(" | ", Tone::Muted));
        spans.push(span("Workspace: ", Tone::Text));
        spans.push(span(self.workspace_display(), Tone::Heading));
        spans.push(span(" | ", Tone::Muted));
        if self.screen == Screen::Sandbox {
            let name = match self.selected_sandbox_name() {
                Some(name) => name,
                None => "-",
            };
            spans.push(span("Sandbox: ", Tone::Text));
            spans.push(span(name, Tone::Heading));
        } else {
            spans.push(span("Dashboard", Tone::Text));
        }
        assert(span_views(spans@) =~= title_row(*self).spans);
        line(spans)
    }

    /// The nav bar.
    pub fn nav_bar(&self) -> (bar: Line)
        requires
            self.wf(),
            self.screen != Screen::Splash,
        ensures
            bar@ == nav_bar_row(*self),
    {
        if self.screen != Screen::Sandbox {
            return nav_line(&show_dashboard_hints(self), &show_dashboard_tail());
        }
        match self.focus {
            Focus::SandboxLogs => {
                let back = if self.logs.log_selection_anchor.is_some() {
                    " Cancel"
                } else {
                    " Policy"
                };
                nav_line(&show_log_hints(self), &show_sandbox_tail(back))
            },
            Focus::SandboxDraft => nav_line(&show_draft_hints(self), &show_sandbox_tail(" Back")),
            _ => {
                let items = show_tab_hints(self.policy.sandbox_policy_tab, Ghost(*self));
                nav_line(&items, &show_sandbox_tail(" Back"))
            },
        }
    }

    /// The command line.
    pub fn command_bar(&self) -> (bar: Line)
        ensures
            bar@ == row(
                if self.input_mode == InputMode::Command {
                    seq![
                        piece(" :"@, Tone::AccentBold),
                        piece(self.command_input@, Tone::Text),
                        piece("_"@, Tone::Accent),
                    ]
                } else {
                    seq![piece(""@, Tone::Muted)]
                },
            ),
    {
        let mut spans: Vec<Span> = Vec::new();
        if self.input_mode == InputMode::Command {
            spans.push(span(" :", Tone::AccentBold));
            spans.push(span(self.command_input.as_str(), Tone::Text));
            spans.push(span("_", Tone::Accent));
            assert(span_views(spans@) =~= seq![
                piece(" :"@, Tone::AccentBold),
                piece(self.command_input@, Tone::Text),
                piece("_"@, Tone::Accent),
            ]);
        } else {
            spans.push(span("", Tone::Muted));
            assert(span_views(spans@) =~= seq![piece(""@, Tone::Muted)]);
        }
        line(spans)
    }

    /// Which view of the sandbox screen shows: what is in focus, or else the tab that was chosen.
    pub open spec fn shown_view(self) -> SandboxView {
        match self.focus {
            Focus::SandboxLogs => SandboxView::Logs,
            Focus::SandboxDraft => SandboxView::Draft,
            _ => match self.policy.sandbox_policy_tab {
                SandboxPolicyTab::Policy => SandboxView::Policy,
                SandboxPolicyTab::Settings => SandboxView::Settings,
                SandboxPolicyTab::Trust => SandboxView::Trust,
            },
        }
    }

    /// Which view of the sandbox screen shows.
    pub fn sandbox_view(&self) -> (view: SandboxView)
        ensures
            view == self.shown_view(),
    {
        match self.focus {
            Focus::SandboxLogs => SandboxView::Logs,
            Focus::SandboxDraft => SandboxView::Draft,
            _ => match self.policy.sandbox_policy_tab {
                SandboxPolicyTab::Policy => SandboxView::Policy,
                SandboxPolicyTab::Settings => SandboxView::Settings,
                SandboxPolicyTab::Trust => SandboxView::Trust,
            },
        }
    }

    /// The filtered log line whose popup shows.
    pub fn shown_log_detail(&self) -> (index: Option<usize>)
        ensures
            index == match self.logs.log_detail_index {
                Some(i) => if self.focus == Focus::SandboxLogs && i < self.logs.filtered_len() {
                    Some(i)
                } else {
                    None
                },
                None => None,
            },
    {
        match self.logs.log_detail_index {
            Some(i) => if self.focus == Focus::SandboxLogs && i < self.filtered_log_lines().len() {
                Some(i)
            } else {
                None
            },
            None => None,
        }
    }

    /// The proposed rule whose popup shows.
    pub fn shown_draft_detail(&self) -> (index: Option<usize>)
        requires
            self.wf(),
        ensures
            index == (if self.focus == Focus::SandboxDraft && self.draft.draft_detail_open
                && self.draft.cursor_row() < self.draft.draft_chunks@.len() {
                Some(self.draft.cursor_row() as usize)
            } else {
                None
            }),
    {
        let at: usize = self.draft.draft_scroll + self.draft.draft_selected;
        if self.focus == Focus::SandboxDraft && self.draft.draft_detail_open && at
            < self.draft.draft_chunks.len() {
            Some(at)
        } else {
            None
        }
    }

    /// Whether the approval of all shows.
    pub fn shows_approve_all(&self) -> (yes: bool)
        ensures
            yes == (self.draft.approve_all_confirm_open
                && self.draft.approve_all_confirm_chunks@.len() > 0),
    {
        self.draft.approve_all_confirm_open && self.draft.approve_all_confirm_chunks.len() > 0
    }

    /// Takes over what the popup of a proposed rule laid out.
    pub fn note_detail_metrics(&mut self, metrics: DetailMetrics)
        ensures
            *final(self) == (App {
                draft: DraftPane {
                    draft_detail_rows: metrics.total_rows,
                    draft_detail_body_height: metrics.body_height,
                    ..old(self).draft
                },
                ..*old(self)
            }),
            old(self).wf() ==> final(self).wf(),
    {
        self.draft.draft_detail_rows = metrics.total_rows;
        self.draft.draft_detail_body_height = metrics.body_height;
    }
}

/// The rows of the editor for a setting.
pub open spec fn edit_rows(key: Seq<char>, kind: SettingValueKind, edit: SettingEditState) -> Seq<
    LineView,
> {
    let gap = row(Seq::empty());
    seq![
        row(seq![piece(" Edit: "@ + key + " ("@ + kind.name() + ") "@, Tone::Heading)]),
        gap,
        row(
            seq![
                piece("Value: "@, Tone::Muted),
                piece(edit.input@, Tone::Text),
                piece("_"@, Tone::Accent),
            ],
        ),
    ] + match edit.error {
        Some(error) => seq![gap, row(seq![piece(error@, Tone::StatusErr)])],
        None => Seq::empty(),
    } + seq![
        gap,
        row(
            seq![
                piece("[Enter]"@, Tone::KeyHint),
                piece(" Confirm  "@, Tone::Muted),
                piece("[Esc]"@, Tone::KeyHint),
                piece(" Cancel"@, Tone::Muted),
            ],
        ),
    ]
}

fn show_edited(edit: &SettingEditState) -> (l: Line)
    ensures
        l@ == row(
            seq![
                piece("Value: "@, Tone::Muted),
                piece(edit.input@, Tone::Text),
                piece("_"@, Tone::Accent),
            ],
        ),
{
    let mut spans: Vec<Span> = Vec::new();
    spans.push(span("Value: ", Tone::Muted));
    spans.push(span(edit.input.as_str(), Tone::Text));
    spans.push(span("_", Tone::Accent));
    assert(span_views(spans@) =~= seq![
        piece("Value: "@, Tone::Muted),
        piece(edit.input@, Tone::Text),
        piece("_"@, Tone::Accent),
    ]);
    line(spans)
}

fn show_edit_keys() -> (l: Line)
    ensures
        l@ == row(
            seq![
                piece("[Enter]"@, Tone::KeyHint),
                piece(" Confirm  "@, Tone::Muted),
                piece("[Esc]"@, Tone::KeyHint),
                piece(" Cancel"@, Tone::Muted),
            ],
        ),
{
    let mut spans: Vec<Span> = Vec::new();
    spans.push(span("[Enter]", Tone::KeyHint));
    spans.push(span(" Confirm  ", Tone::Muted));
    spans.push(span("[Esc]", Tone::KeyHint));
    spans.push(span(" Cancel", Tone::Muted));
    assert(span_views(spans@) =~= seq![
        piece("[Enter]"@, Tone::KeyHint),
        piece(" Confirm  "@, Tone::Muted),
        piece("[Esc]"@, Tone::KeyHint),
        piece(" Cancel"@, Tone::Muted),
    ]);
    line(spans)
}

/// The rows of the editor for a setting, global or of a sandbox.
pub fn edit_lines(key: &str, kind: SettingValueKind, edit: &SettingEditState) -> (lines: Vec<Line>)
    ensures
        line_views(lines@) == edit_rows(key@, kind, *edit),
{
    let mut lines: Vec<Line> = Vec::new();
    let mut title = all_together(" Edit: ", key, " (");
    title.append(kind.as_str());
    title.append(") ");
    lines.push(line_of(text_span(title, Tone::Heading)));
    lines.push(blank());
    lines.push(show_edited(edit));
    if let Some(error) = &edit.error {
        lines.push(blank());
        lines.push(line_of(span(error.as_str(), Tone::StatusErr)));
    }
    lines.push(blank());
    lines.push(show_edit_keys());
    assert(line_views(lines@) =~= edit_rows(key@, kind, *edit));
    lines
}

/// The label of a text field, with its placeholder.
pub open spec fn field_label(label: Seq<char>, placeholder: Seq<char>, focused: bool) -> LineView {
    row(
        seq![
            piece(
                label + ":"@,
                if focused {
                    Tone::AccentBold
                } else {
                    Tone::Text
                },
            ),
        ] + if placeholder.len() > 0 {
            seq![piece("  "@ + placeholder, Tone::Muted)]
        } else {
            Seq::empty()
        },
    )
}

/// The content of a text field, with the cursor where it is focused.
pub open spec fn field_content(value: Seq<char>, focused: bool, cursor: Seq<char>) -> LineView {
    row(
        if focused {
            seq![piece("  "@ + value, Tone::Accent), piece(cursor, Tone::Accent)]
        } else if value.len() == 0 {
            seq![piece("  -"@, Tone::Muted)]
        } else {
            seq![piece("  "@ + value, Tone::Text)]
        },
    )
}

/// The label and the content of a text field.
pub fn text_field(
    label: &str,
    value: &str,
    placeholder: &str,
    focused: bool,
    cursor: &str,
) -> (lines: (Line, Line))
    ensures
        lines.0@ == field_label(label@, placeholder@, focused),
        lines.1@ == field_content(value@, focused, cursor@),
{
    let label_tone = if focused {
        Tone::AccentBold
    } else {
        Tone::Text
    };
    let mut head: Vec<Span> = Vec::new();
    head.push(text_span(together(label, ":"), label_tone));
    if !placeholder.is_empty() {
        head.push(text_span(together("  ", placeholder), Tone::Muted));
    }
    assert(span_views(head@) =~= field_label(label@, placeholder@, focused).spans);
    let mut body: Vec<Span> = Vec::new();
    if focused {
        body.push(text_span(together("  ", value), Tone::Accent));
        body.push(span(cursor, Tone::Accent));
    } else if value.is_empty() {
        body.push(span("  -", Tone::Muted));
    } else {
        body.push(text_span(together("  ", value), Tone::Text));
    }
    assert(span_views(body@) =~= field_content(value@, focused, cursor@).spans);
    (line(head), line(body))
}

/// A rectangle of the screen.
#[derive(Debug, Clone, Copy, PartialEq, Eq, Structural)]
pub struct Area {
    pub x: u16,
    pub y: u16,
    pub width: u16,
    pub height: u16,
}

impl Area {
    /// Where a message stands in a bordered panel that has no rows.
    pub fn message_area(&self) -> (inner: Area)
        requires
            self.x + 2 <= u16::MAX,
            self.y + 2 <= u16::MAX,
        ensures
            inner == (Area {
                x: (self.x + 2) as u16,
                y: (self.y + 2) as u16,
                width: less(self.width as int, 4) as u16,
                height: less(self.height as int, 3) as u16,
            }),
    {
        Area {
            x: self.x + 2,
            y: self.y + 2,
            width: if self.width < 4 {
                0
            } else {
                self.width - 4
            },
            height: if self.height < 3 {
                0
            } else {
                self.height - 3
            },
        }
    }
}

/// The height of a popup that shows `lines` lines inside its border.
pub fn bordered_height(lines: usize) -> (height: u16)
    ensures
        height == smaller(lines + 2, u16::MAX as int),
{
    if lines > 65533 {
        u16::MAX
    } else {
        lines as u16 + 2
    }
}

/// The margin, in percent, on either side of something that takes `part` percent.
pub fn side_margin(part: u16) -> (margin: u16)
    ensures
        margin == (100 - smaller(part as int, 100)) / 2,
{
    if part > 100 {
        0
    } else {
        (100 - part) / 2
    }
}

/// The nav bar offers to approve a rule exactly where the approval key acts on it, and to
/// reject it exactly where the rejection key does.
pub proof fn lemma_hints_match_decisions(status: Seq<char>)
    ensures
        decision_hints(status).contains(nav_hint("[a]"@, " Approve"@))
            <==> approvable(status),
        decision_hints(status).len() > 0 <==> approvable(status)
            || rejectable(status),
{
    reveal_strlit("[a]");
    reveal_strlit("[x]");
    reveal_strlit("[A]");
    reveal_strlit("pending");
    reveal_strlit("approved");
    reveal_strlit("rejected");
    assert("pending"@.len() == 7);
    assert("approved"@[0] == 'a');
    assert("rejected"@[0] == 'r');
    let hints = decision_hints(status);
    let approve = nav_hint("[a]"@, " Approve"@);
    assert("[a]"@[1] == 'a');
    assert("[x]"@[1] == 'x');
    assert("[A]"@[1] == 'A');
    if approvable(status) {
        assert(hints[0] == approve);
    } else if hints.len() > 0 {
        assert(hints[0][0].content == "[x]"@);
        assert(approve[0].content == "[a]"@);
        assert(hints.len() == 1);
    }
}

/// The title bar names the gateway that is connected, its status, the workspace and the sandbox or
/// the dashboard, each in its place.
pub proof fn lemma_title_names_the_place(app: App)
    ensures
        ({
            let spans = title_row(app).spans;
            &&& spans[4].content == app.gateway.gateway_name@
            &&& spans[8].content == app.status_text@
            &&& spans[12].content == if app.workspace.all_workspaces {
                "all"@
            } else {
                app.workspace.current_workspace@
            }
            &&& app.screen == Screen::Sandbox ==> spans[14].content == "Sandbox: "@ && (
            app.sandboxes.sandbox_selected < app.sandboxes.sandbox_names@.len()
                ==> spans[15].content
                == app.sandboxes.sandbox_names@[app.sandboxes.sandbox_selected as int]@)
            &&& app.screen != Screen::Sandbox ==> spans[14].content == "Dashboard"@ && spans.len()
                == 15
        }),
{
}

/// Where the metadata of a gateway came from is that of the first gateway of its name.
pub proof fn lemma_source_is_of_the_first_gateway(
    gateways: Seq<GatewayEntry>,
    name: Seq<char>,
    i: int,
)
    ensures
        0 <= i < gateways.len() && gateways[i].name@ == name && (forall|j: int|
            0 <= j < i ==> (#[trigger] gateways[j]).name@ != name) ==> source_of(gateways, name)
            == source_text(gateways[i].source),
        (forall|j: int| 0 <= j < gateways.len() ==> (#[trigger] gateways[j]).name@ != name)
            ==> source_of(gateways, name) == "unknown"@,
    decreases gateways.len(),
{
    if gateways.len() > 0 {
        let rest = gateways.drop_first();
        lemma_source_is_of_the_first_gateway(rest, name, i - 1);
        if 0 < i < gateways.len() && (forall|j: int|
            0 <= j < i ==> (#[trigger] gateways[j]).name@ != name) {
            assert(gateways[0].name@ != name);
            assert(rest[i - 1] == gateways[i]);
            assert forall|j: int| 0 <= j < i - 1 implies (#[trigger] rest[j]).name@ != name by {
                assert(rest[j] == gateways[j + 1]);
            }
        }
        if forall|j: int| 0 <= j < gateways.len() ==> (#[trigger] gateways[j]).name@ != name {
            assert(gateways[0].name@ != name);
            assert forall|j: int| 0 <= j < rest.len() implies (#[trigger] rest[j]).name@ != name by {
                assert(rest[j] == gateways[j + 1]);
            }
        }
    }
}

/// Whether the hints offer a key for what it does.
pub open spec fn offers(hints: Seq<Seq<SpanView>>, key: Seq<char>, label: Seq<char>) -> bool {
    exists|i: int|
        0 <= i < hints.len() && (#[trigger] hints[i]).len() == 2 && hints[i][0].content == key
            && hints[i][1].content == label
}

proof fn lemma_hint_words()
    ensures
        "[a]"@ != "[x]"@,
        "[a]"@ != "[A]"@,
        "[x]"@ != "[A]"@,
        " Reject"@ != " Revoke"@,
        "pending"@ != "approved"@,
        "pending"@ != "rejected"@,
        "approved"@ != "rejected"@,
{
    reveal_strlit("[a]");
    reveal_strlit("[x]");
    reveal_strlit("[A]");
    reveal_strlit(" Reject");
    reveal_strlit(" Revoke");
    reveal_strlit("pending");
    reveal_strlit("approved");
    reveal_strlit("rejected");
    assert("[a]"@[1] == 'a' && "[x]"@[1] == 'x' && "[A]"@[1] == 'A');
    assert(" Reject"@[3] == 'j' && " Revoke"@[3] == 'v');
    assert("pending"@.len() == 7 && "approved"@.len() == 8 && "rejected"@.len() == 8);
    assert("approved"@[0] == 'a' && "rejected"@[0] == 'r');
}

/// Approving is offered for a rule that waits or was rejected, rejecting for one that waits,
/// revoking for one that was approved, and approving all for one that waits.
pub proof fn lemma_decisions_are_offered_by_status(status: Seq<char>)
    ensures
        ({
            let hints = decision_hints(status);
            &&& offers(hints, "[a]"@, " Approve"@) <==> status == "pending"@ || status
                == "rejected"@
            &&& offers(hints, "[x]"@, " Reject"@) <==> status == "pending"@
            &&& offers(hints, "[x]"@, " Revoke"@) <==> status == "approved"@
            &&& offers(hints, "[A]"@, " Approve All"@) <==> status == "pending"@
        }),
{
    lemma_hint_words();
    let hints = decision_hints(status);
    if status == "pending"@ {
        assert(hints[0][0].content == "[a]"@);
        assert(hints[1][0].content == "[x]"@);
        assert(hints[2][0].content == "[A]"@);
    } else if status == "approved"@ {
        assert(hints[0][0].content == "[x]"@);
    } else if status == "rejected"@ {
        assert(hints[0][0].content == "[a]"@);
    }
}

/// On the sandbox screen a shell and deletion are offered in the policy tab, a fresh appraisal in
/// the trust tab, and editing in the settings tab.
pub proof fn lemma_tabs_offer_what_they_do(app: App)
    requires
        app.focus != Focus::SandboxLogs,
        app.focus != Focus::SandboxDraft,
    ensures
        ({
            let hints = sandbox_hints(app);
            let tab = app.policy.sandbox_policy_tab;
            &&& tab == SandboxPolicyTab::Policy ==> offers(hints, "[s]"@, " Shell"@) && offers(
                hints,
                "[d]"@,
                " Delete"@,
            ) && offers(hints, "[l]"@, " Logs"@) && offers(hints, "[r]"@, " Rules"@)
            &&& tab == SandboxPolicyTab::Settings ==> offers(hints, "[Enter]"@, " Edit"@) && offers(
                hints,
                "[d]"@,
                " Delete"@,
            )
            &&& tab == SandboxPolicyTab::Trust ==> offers(hints, "[r]"@, " Refresh"@)
        }),
{
    let hints = sandbox_hints(app);
    match app.policy.sandbox_policy_tab {
        SandboxPolicyTab::Policy => {
            assert(hints[3] == nav_hint("[s]"@, " Shell"@));
            assert(hints[4] == nav_hint("[l]"@, " Logs"@));
            assert(hints[5] == nav_hint("[r]"@, " Rules"@));
            assert(hints[6] == nav_hint("[d]"@, " Delete"@));
        },
        SandboxPolicyTab::Settings => {
            assert(hints[2] == nav_hint("[Enter]"@, " Edit"@));
            assert(hints[3] == nav_hint("[d]"@, " Delete"@));
        },
        SandboxPolicyTab::Trust => {
            assert(hints[1] == nav_hint("[r]"@, " Refresh"@));
        },
    }
}

/// On the dashboard providers are offered to be created, updated and deleted where they can be,
/// sandboxes to be created, and global settings to be edited and deleted.
pub proof fn lemma_panels_offer_what_they_do(app: App)
    ensures
        ({
            let hints = dashboard_hints(app);
            &&& app.focus == Focus::Providers && app.provider.middle_pane_tab
                == MiddlePaneTab::Providers && !app.provider.providers_v2_enabled ==> offers(
                hints,
                "[c]"@,
                " Create"@,
            ) && offers(hints, "[u]"@, " Update"@) && offers(hints, "[d]"@, " Delete"@)
                && offers(hints, "[Enter]"@, " Detail"@)
            &&& app.focus == Focus::Providers && app.provider.middle_pane_tab
                == MiddlePaneTab::Providers && app.provider.providers_v2_enabled ==> hints.len()
                == 5 && hints[4][0].content == "read-only"@
            &&& app.focus == Focus::Providers && app.provider.middle_pane_tab
                == MiddlePaneTab::GlobalSettings ==> offers(hints, "[Enter]"@, " Edit"@) && offers(
                hints,
                "[d]"@,
                " Delete"@,
            )
            &&& app.focus == Focus::Sandboxes ==> offers(hints, "[c]"@, " Create Sandbox"@)
                && offers(hints, "[w]"@, " Workspace"@) && offers(hints, "[Enter]"@, " Select"@)
        }),
{
    let hints = dashboard_hints(app);
    if app.focus == Focus::Providers {
        if app.provider.middle_pane_tab == MiddlePaneTab::GlobalSettings {
            assert(hints[3] == nav_hint("[Enter]"@, " Edit"@));
            assert(hints[4] == nav_hint("[d]"@, " Delete"@));
        } else if !app.provider.providers_v2_enabled {
            assert(hints[3] == nav_hint("[Enter]"@, " Detail"@));
            assert(hints[4] == nav_hint("[c]"@, " Create"@));
            assert(hints[5] == nav_hint("[u]"@, " Update"@));
            assert(hints[6] == nav_hint("[d]"@, " Delete"@));
        }
    } else if app.focus == Focus::Sandboxes {
        assert(hints[2] == nav_hint("[Enter]"@, " Select"@));
        assert(hints[3] == nav_hint("[c]"@, " Create Sandbox"@));
        assert(hints[4] == nav_hint("[w]"@, " Workspace"@));
    }
}

/// A gateway's status is in order where it says so, a warning where it is degraded, and an error
/// where it is unhealthy.
pub proof fn lemma_gateway_tones(status: Seq<char>)
    ensures
        gateway_tone(status) == Tone::StatusOk <==> holds_text(status, "Healthy"@),
        gateway_tone(status) == Tone::StatusWarn <==> !holds_text(status, "Healthy"@) && holds_text(
            status,
            "Degraded"@,
        ),
        gateway_tone(status) == Tone::StatusErr <==> !holds_text(status, "Healthy"@) && !holds_text(
            status,
            "Degraded"@,
        ) && holds_text(status, "Unhealthy"@),
{
}

/// The editor shows the setting by its key and kind, and what is entered; an error stands below
/// it where there is one; and the keys that end it are offered last.
pub proof fn lemma_editor_shows_what_is_entered(
    key: Seq<char>,
    kind: SettingValueKind,
    edit: SettingEditState,
)
    ensures
        ({
            let rows = edit_rows(key, kind, edit);
            let n = rows.len();
            &&& rows[0].spans[0].content == " Edit: "@ + key + " ("@ + kind.name() + ") "@
            &&& rows[2].spans[0].content == "Value: "@
            &&& rows[2].spans[1].content == edit.input@
            &&& edit.error is Some <==> n == 7
            &&& edit.error is None <==> n == 5
            &&& edit.error matches Some(error) ==> rows[4].spans[0].content == error@
                && rows[4].spans[0].style.tone == Tone::StatusErr
            &&& rows[n - 1].spans[0].content == "[Enter]"@
            &&& rows[n - 1].spans[1].content == " Confirm  "@
            &&& rows[n - 1].spans[2].content == "[Esc]"@
            &&& rows[n - 1].spans[3].content == " Cancel"@
        }),
{
}

/// A text field shows its label, and its value; the cursor stands behind the value where the
/// field is in focus, and there alone; and a field out of focus without a value shows a dash.
pub proof fn lemma_fields_show_label_and_value(
    label: Seq<char>,
    placeholder: Seq<char>,
    value: Seq<char>,
    focused: bool,
    cursor: Seq<char>,
)
    ensures
        ({
            let head = field_label(label, placeholder, focused);
            let body = field_content(value, focused, cursor);
            &&& head.spans[0].content == label + ":"@
            &&& head.spans[0].style.tone == Tone::AccentBold <==> focused
            &&& placeholder.len() > 0 <==> head.spans.len() == 2
            &&& placeholder.len() > 0 ==> head.spans[1].content == "  "@ + placeholder
            &&& focused <==> body.spans.len() == 2
            &&& focused ==> body.spans[1].content == cursor
            &&& focused || value.len() > 0 ==> body.spans[0].content == "  "@ + value
            &&& !focused && value.len() == 0 ==> body.spans[0].content == "  -"@
        }),
{
}

/// The log shows exactly where it is in focus, and so do the proposed rules; in every other focus
/// the tab that was chosen shows.
pub proof fn lemma_views_follow_the_focus(app: App)
    ensures
        app.shown_view() == SandboxView::Logs <==> app.focus == Focus::SandboxLogs,
        app.shown_view() == SandboxView::Draft <==> app.focus == Focus::SandboxDraft,
        app.focus != Focus::SandboxLogs && app.focus != Focus::SandboxDraft ==> {
            &&& app.shown_view() == SandboxView::Policy <==> app.policy.sandbox_policy_tab
                == SandboxPolicyTab::Policy
            &&& app.shown_view() == SandboxView::Settings <==> app.policy.sandbox_policy_tab
                == SandboxPolicyTab::Settings
            &&& app.shown_view() == SandboxView::Trust <==> app.policy.sandbox_policy_tab
                == SandboxPolicyTab::Trust
        },
{
}

} // verus!
