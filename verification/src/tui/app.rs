//! The state of the interface, and what a key press makes of it.

use vstd::prelude::*;
use crate::text;
use crate::text::texts;
use crate::text_map::TextMap;
use crate::tui::create_sandbox::{port_texts, selected_names, CreateFormData, CreatePane};
use crate::tui::draft::DraftPane;
use crate::tui::logs::{filtered, LogPane};
use crate::tui::model::{
    Focus, GatewayEntry, InputMode, LogLine, ProviderDetailView, Screen, SettingValue,
};
use crate::tui::policy_pane::PolicyPane;
use crate::tui::provider::Provider;
use crate::tui::provider_detail::{profile_for, provider_detail, shows_provider};
use crate::tui::provider_pane::ProviderPane;
use crate::tui::settings::{
    clamped, lists_effective, lists_global, EffectiveSetting, GlobalSettingsPane,
    RegisteredSetting, SandboxSettingsPane,
};
use crate::tui::trust::TrustPane;

verus! {

/// The gateways pane of the dashboard.
pub struct GatewayPane {
    /// The gateway connected to.
    pub gateway_name: String,
    pub endpoint: String,
    pub gateways: Vec<GatewayEntry>,
    pub gateway_selected: usize,
    pub pending_gateway_switch: Option<String>,
}

/// Which workspace is shown.
pub struct WorkspacePane {
    pub current_workspace: String,
    pub all_workspaces: bool,
    pub workspace_names: Vec<String>,
    pub pending_workspace_refresh: bool,
}

/// The sandbox list of the dashboard.
pub struct SandboxList {
    pub sandbox_ids: Vec<String>,
    pub sandbox_names: Vec<String>,
    pub sandbox_phases: Vec<String>,
    pub sandbox_ages: Vec<String>,
    pub sandbox_created: Vec<String>,
    pub sandbox_images: Vec<String>,
    pub sandbox_notes: Vec<String>,
    pub sandbox_labels: Vec<String>,
    pub sandbox_annotations: Vec<String>,
    pub sandbox_workspaces: Vec<String>,
    pub sandbox_policy_versions: Vec<u32>,
    pub sandbox_selected: usize,
    pub sandbox_count: usize,
    /// Pending recommendations of each sandbox.
    pub sandbox_draft_counts: Vec<usize>,
}

/// The background tasks.
pub struct Tasks {
    /// The animation.
    pub anim_handle: Option<u64>,
    /// The log stream.
    pub log_stream_handle: Option<u64>,
    /// Tasks that are to be aborted.
    pub cancelled_tasks: Vec<u64>,
}

/// The state of the interface.
pub struct App {
    pub running: bool,
    pub screen: Screen,
    pub input_mode: InputMode,
    pub focus: Focus,
    pub command_input: String,
    /// When the splash screen was shown, in milliseconds.
    pub splash_start: Option<u64>,
    pub status_text: String,
    pub gateway: GatewayPane,
    pub workspace: WorkspacePane,
    pub provider: ProviderPane,
    pub settings: GlobalSettingsPane,
    pub sandboxes: SandboxList,
    pub policy: PolicyPane,
    pub trust: TrustPane,
    pub sandbox_settings: SandboxSettingsPane,
    pub create: CreatePane,
    pub tasks: Tasks,
    pub logs: LogPane,
    pub draft: DraftPane,
}

/// The tasks to be aborted, with `handle` among them where it is a task.
pub open spec fn aborted(tasks: Seq<u64>, handle: Option<u64>) -> Seq<u64> {
    match handle {
        Some(task) => tasks.push(task),
        None => tasks,
    }
}

impl Tasks {
    /// Whether `post` is `self` with the log stream ended.
    pub open spec fn ends_log_stream(self, post: Self) -> bool {
        &&& post == (Tasks {
            log_stream_handle: None,
            cancelled_tasks: post.cancelled_tasks,
            ..self
        })
        &&& post.cancelled_tasks@ == aborted(self.cancelled_tasks@, self.log_stream_handle)
    }

    fn end_log_stream(&mut self)
        ensures
            old(self).ends_log_stream(*final(self)),
    {
        if let Some(task) = self.log_stream_handle {
            self.cancelled_tasks.push(task);
        }
        self.log_stream_handle = None;
    }

    /// Whether `post` is `self` with the animation ended.
    pub open spec fn ends_anim(self, post: Self) -> bool {
        &&& post == (Tasks { anim_handle: None, cancelled_tasks: post.cancelled_tasks, ..self })
        &&& post.cancelled_tasks@ == aborted(self.cancelled_tasks@, self.anim_handle)
    }

    fn end_anim(&mut self)
        ensures
            old(self).ends_anim(*final(self)),
    {
        if let Some(task) = self.anim_handle {
            self.cancelled_tasks.push(task);
        }
        self.anim_handle = None;
    }
}

impl SandboxList {
    /// Whether no sandbox is listed.
    pub open spec fn no_sandboxes(self) -> bool {
        &&& self.sandbox_ids@.len() == 0
        &&& self.sandbox_names@.len() == 0
        &&& self.sandbox_phases@.len() == 0
        &&& self.sandbox_ages@.len() == 0
        &&& self.sandbox_created@.len() == 0
        &&& self.sandbox_images@.len() == 0
        &&& self.sandbox_notes@.len() == 0
        &&& self.sandbox_labels@.len() == 0
        &&& self.sandbox_annotations@.len() == 0
        &&& self.sandbox_workspaces@.len() == 0
        &&& self.sandbox_policy_versions@.len() == 0
        &&& self.sandbox_selected == 0
        &&& self.sandbox_count == 0
    }

    fn new() -> (list: Self)
        ensures
            list.no_sandboxes(),
            list.sandbox_draft_counts@.len() == 0,
    {
        SandboxList {
            sandbox_ids: Vec::new(),
            sandbox_names: Vec::new(),
            sandbox_phases: Vec::new(),
            sandbox_ages: Vec::new(),
            sandbox_created: Vec::new(),
            sandbox_images: Vec::new(),
            sandbox_notes: Vec::new(),
            sandbox_labels: Vec::new(),
            sandbox_annotations: Vec::new(),
            sandbox_workspaces: Vec::new(),
            sandbox_policy_versions: Vec::new(),
            sandbox_selected: 0,
            sandbox_count: 0,
            sandbox_draft_counts: Vec::new(),
        }
    }

    fn reset(&mut self)
        ensures
            final(self).no_sandboxes(),
            final(self).sandbox_draft_counts == old(self).sandbox_draft_counts,
    {
        self.sandbox_ids.clear();
        self.sandbox_names.clear();
        self.sandbox_phases.clear();
        self.sandbox_ages.clear();
        self.sandbox_created.clear();
        self.sandbox_images.clear();
        self.sandbox_notes.clear();
        self.sandbox_labels.clear();
        self.sandbox_annotations.clear();
        self.sandbox_workspaces.clear();
        self.sandbox_policy_versions.clear();
        self.sandbox_selected = 0;
        self.sandbox_count = 0;
    }
}

impl WorkspacePane {
    /// The name of the workspace after the current one, or none where all are shown next.
    pub open spec fn next_name(self) -> Option<Seq<char>> {
        let names = texts(self.workspace_names@);
        if self.all_workspaces {
            Some("default"@)
        } else {
            let at = names.index_of_first(self.current_workspace@);
            match at {
                Some(i) => if i + 1 < names.len() {
                    Some(names[i + 1])
                } else {
                    None
                },
                None => None,
            }
        }
    }

    /// What cycling makes of the pane.
    pub open spec fn cycles(self, post: Self) -> bool {
        &&& post == (WorkspacePane {
            current_workspace: post.current_workspace,
            all_workspaces: self.next_name() is None,
            pending_workspace_refresh: true,
            ..self
        })
        &&& post.current_workspace@ == match self.next_name() {
            Some(name) => name,
            None => "default"@,
        }
    }

    fn cycle(&mut self)
        ensures
            old(self).cycles(*final(self)),
    {
        self.pending_workspace_refresh = true;
        if self.all_workspaces {
            self.all_workspaces = false;
            self.current_workspace = "default".to_string();
            return;
        }
        let ghost names = texts(self.workspace_names@);
        let n: usize = self.workspace_names.len();
        let mut i: usize = 0;
        while i < n && !text::same(
            self.workspace_names[i].as_str(),
            self.current_workspace.as_str(),
        )
            invariant
                i <= n,
                n == self.workspace_names@.len(),
                names == texts(self.workspace_names@),
                forall|k: int| 0 <= k < i ==> #[trigger] names[k] != self.current_workspace@,
            ensures
                i < n ==> self.workspace_names@[i as int]@ == self.current_workspace@,
            decreases n - i,
        {
            assert(names[i as int] == self.workspace_names@[i as int]@);
            i = i + 1;
        }
        proof {
            let v = self.current_workspace@;
            if i < n {
                assert(names[i as int] == v);
                names.index_of_first_ensures(v);
                let at = names.index_of_first(v);
                assert(names.contains(v));
                assert(at == Some(i as int)) by {
                    let j = at->Some_0;
                    assert(names[j] == v);
                    assert(j >= i);
                    assert(j <= i);
                }
            } else {
                assert(!names.contains(v));
                names.index_of_first_ensures(v);
            }
        }
        if i < n && i + 1 < n {
            assert(names[i + 1] == self.workspace_names@[i + 1]@);
            self.current_workspace = self.workspace_names[i + 1].clone();
        } else {
            self.all_workspaces = true;
            self.current_workspace = "default".to_string();
        }
    }
}

/// The panels of the dashboard, in their order.
pub open spec fn panel(i: int) -> Focus {
    if i % 3 == 0 {
        Focus::Gateways
    } else if i % 3 == 1 {
        Focus::Providers
    } else {
        Focus::Sandboxes
    }
}

/// The place of a panel on the dashboard; what is not there counts as the first.
pub open spec fn panel_place(focus: Focus) -> int {
    match focus {
        Focus::Providers => 1,
        Focus::Sandboxes => 2,
        _ => 0,
    }
}

impl App {
    /// The panes are well-formed.
    pub open spec fn wf(self) -> bool {
        &&& self.provider.wf()
        &&& self.policy.wf()
        &&& self.trust.wf()
        &&& self.sandbox_settings.wf()
        &&& self.create.wf()
        &&& self.logs.wf()
        &&& self.draft.wf()
    }

    /// The interface for a gateway, as it starts at `now`.
    pub fn new(gateway_name: String, endpoint: String, workspace: String, now: u64) -> (app: Self)
        ensures
            app.running,
            app.screen == Screen::Splash,
            app.input_mode == InputMode::Normal,
            app.focus == Focus::Gateways,
            app.command_input@ == Seq::<char>::empty(),
            app.splash_start == Some(now),
            app.status_text@ == "connecting..."@,
            app.gateway.gateway_name == gateway_name,
            app.gateway.endpoint == endpoint,
            app.gateway.gateways@.len() == 0,
            app.gateway.gateway_selected == 0,
            app.gateway.pending_gateway_switch is None,
            app.workspace.current_workspace == workspace,
            !app.workspace.all_workspaces,
            app.workspace.workspace_names@.len() == 0,
            !app.workspace.pending_workspace_refresh,
            app.provider.fresh(),
            app.settings.fresh(),
            app.sandboxes.no_sandboxes(),
            app.sandboxes.sandbox_draft_counts@.len() == 0,
            app.policy.fresh(),
            app.trust.fresh(),
            app.sandbox_settings.fresh(),
            app.create.fresh(),
            app.tasks.anim_handle is None,
            app.tasks.log_stream_handle is None,
            app.tasks.cancelled_tasks@.len() == 0,
            app.logs.fresh(),
            app.draft.fresh(),
            app.wf(),
    {
        App {
            running: true,
            screen: Screen::Splash,
            input_mode: InputMode::Normal,
            focus: Focus::Gateways,
            command_input: String::new(),
            splash_start: Some(now),
            status_text: "connecting...".to_string(),
            gateway: GatewayPane {
                gateway_name,
                endpoint,
                gateways: Vec::new(),
                gateway_selected: 0,
                pending_gateway_switch: None,
            },
            workspace: WorkspacePane {
                current_workspace: workspace,
                all_workspaces: false,
                workspace_names: Vec::new(),
                pending_workspace_refresh: false,
            },
            provider: ProviderPane::new(),
            settings: GlobalSettingsPane::new(),
            sandboxes: SandboxList::new(),
            policy: PolicyPane::new(),
            trust: TrustPane::new(),
            sandbox_settings: SandboxSettingsPane::new(),
            create: CreatePane::new(),
            tasks: Tasks {
                anim_handle: None,
                log_stream_handle: None,
                cancelled_tasks: Vec::new(),
            },
            logs: LogPane::new(),
            draft: DraftPane::new(),
        }
    }

    /// Takes over the global settings that the gateway sent.
    pub fn apply_global_settings(
        &mut self,
        registered: &Vec<RegisteredSetting>,
        settings: &TextMap<Option<SettingValue>>,
        revision: u64,
    )
        ensures
            lists_global(registered@, settings@, final(self).settings.global_settings@),
            *final(self) == (App {
                settings: GlobalSettingsPane {
                    global_settings_revision: revision,
                    global_settings_access_denied: false,
                    global_settings: final(self).settings.global_settings,
                    global_settings_selected: clamped(
                        old(self).settings.global_settings_selected,
                        registered@.len(),
                    ),
                    ..old(self).settings
                },
                ..*old(self)
            }),
    {
        self.settings.apply_global_settings(registered, settings, revision);
    }

    /// Clears the global settings once the gateway has denied access to them.
    pub fn deny_global_settings_access(&mut self)
        ensures
            old(self).settings.denies_settings(final(self).settings),
            *final(self) == (App { settings: final(self).settings, ..*old(self) }),
    {
        self.settings.deny_global_settings_access();
    }

    /// Clears the global policy's state once the gateway has denied access to it.
    pub fn deny_global_policy_access(&mut self)
        ensures
            old(self).settings.denies_policy(final(self).settings),
            *final(self) == (App { settings: final(self).settings, ..*old(self) }),
    {
        self.settings.deny_global_policy_access();
    }

    /// Takes over the settings of the sandbox that the gateway sent.
    pub fn apply_sandbox_settings(
        &mut self,
        registered: &Vec<RegisteredSetting>,
        settings: &TextMap<EffectiveSetting>,
    )
        ensures
            lists_effective(registered@, settings@, final(self).sandbox_settings.sandbox_settings@),
            *final(self) == (App {
                sandbox_settings: SandboxSettingsPane {
                    sandbox_settings: final(self).sandbox_settings.sandbox_settings,
                    sandbox_settings_selected: clamped(
                        old(self).sandbox_settings.sandbox_settings_selected,
                        registered@.len(),
                    ),
                    ..old(self).sandbox_settings
                },
                ..*old(self)
            }),
            old(self).wf() ==> final(self).wf(),
    {
        self.sandbox_settings.apply_sandbox_settings(registered, settings);
    }

    /// The log lines that the source filter lets through.
    pub fn filtered_log_lines(&self) -> (lines: Vec<&LogLine>)
        ensures
            lines@.len() == self.logs.filtered_len(),
            forall|i: int|
                0 <= i < lines@.len() ==> *#[trigger] lines@[i] == filtered(
                    self.logs.sandbox_log_lines@,
                    self.logs.log_source_filter,
                )[i],
    {
        self.logs.filtered_log_lines()
    }

    pub fn log_autoscroll_offset(&self) -> (offset: usize)
        ensures
            offset == self.logs.bottom_offset(),
    {
        self.logs.log_autoscroll_offset()
    }

    /// Scrolls the logs by `delta` lines, down where it is positive.
    pub fn scroll_logs(&mut self, delta: isize)
        requires
            old(self).logs.sandbox_log_scroll + delta <= usize::MAX,
        ensures
            *final(self) == (App { logs: old(self).logs.scrolled_by(delta as int), ..*old(self) }),
            old(self).wf() ==> final(self).wf(),
    {
        self.logs.scroll_logs(delta);
    }

    /// Scrolls the policy by `delta` lines, down where it is positive.
    pub fn scroll_policy(&mut self, delta: isize)
        requires
            old(self).policy.policy_scroll + delta <= usize::MAX,
        ensures
            *final(self) == (App {
                policy: old(self).policy.scrolled_by(delta as int),
                ..*old(self)
            }),
    {
        self.policy.scroll_policy(delta);
    }

    /// Scrolls the trust tab by `delta` rows, down where it is positive.
    pub fn scroll_trust(&mut self, delta: isize)
        requires
            old(self).trust.trust_scroll + delta <= usize::MAX,
        ensures
            *final(self) == (App { trust: old(self).trust.scrolled_by(delta as int), ..*old(self) }),
    {
        self.trust.scroll_trust(delta);
    }

    /// The interface with the splash screen gone.
    pub open spec fn without_splash(self) -> Self {
        if self.screen == Screen::Splash {
            App { screen: Screen::Dashboard, splash_start: None, ..self }
        } else {
            self
        }
    }

    /// Dismisses the splash screen and shows the dashboard.
    pub fn dismiss_splash(&mut self)
        ensures
            *final(self) == old(self).without_splash(),
    {
        if self.screen == Screen::Splash {
            self.screen = Screen::Dashboard;
            self.splash_start = None;
        }
    }

    /// What cycling through the workspaces makes of the interface.
    pub open spec fn cycles_workspace(self, post: Self) -> bool {
        &&& post == (App {
            workspace: post.workspace,
            sandboxes: SandboxList { sandbox_selected: 0, ..self.sandboxes },
            provider: ProviderPane { provider_selected: 0, ..self.provider },
            ..self
        })
        &&& self.workspace.cycles(post.workspace)
    }

    /// Goes to the next workspace, and after the last one to all of them; the selections go back
    /// to the first row.
    pub fn cycle_workspace(&mut self)
        ensures
            old(self).cycles_workspace(*final(self)),
    {
        self.workspace.cycle();
        self.sandboxes.sandbox_selected = 0;
        self.provider.provider_selected = 0;
    }

    /// The workspace shown.
    pub open spec fn shown_workspace(self) -> Seq<char> {
        if self.workspace.all_workspaces {
            "all"@
        } else {
            self.workspace.current_workspace@
        }
    }

    /// The workspace of the selected sandbox row, or else the one shown.
    pub open spec fn sandbox_workspace(self) -> String {
        if self.sandboxes.sandbox_selected < self.sandboxes.sandbox_workspaces@.len() {
            self.sandboxes.sandbox_workspaces@[self.sandboxes.sandbox_selected as int]
        } else {
            self.workspace.current_workspace
        }
    }

    /// The workspace of the selected provider row, or else the one shown.
    pub open spec fn provider_workspace(self) -> String {
        if self.provider.provider_selected < self.provider.provider_workspaces@.len() {
            self.provider.provider_workspaces@[self.provider.provider_selected as int]
        } else {
            self.workspace.current_workspace
        }
    }

    /// The workspace shown.
    pub fn workspace_display(&self) -> (name: &str)
        ensures
            name@ == self.shown_workspace(),
    {
        if self.workspace.all_workspaces {
            "all"
        } else {
            self.workspace.current_workspace.as_str()
        }
    }

    /// The identifier of the selected sandbox.
    pub fn selected_sandbox_id(&self) -> (id: Option<&str>)
        ensures
            id is Some <==> self.sandboxes.sandbox_selected < self.sandboxes.sandbox_ids@.len(),
            id matches Some(s) ==> s@
                == self.sandboxes.sandbox_ids@[self.sandboxes.sandbox_selected as int]@,
    {
        if self.sandboxes.sandbox_selected < self.sandboxes.sandbox_ids.len() {
            Some(self.sandboxes.sandbox_ids[self.sandboxes.sandbox_selected].as_str())
        } else {
            None
        }
    }

    /// The name of the selected sandbox.
    pub fn selected_sandbox_name(&self) -> (name: Option<&str>)
        ensures
            name is Some <==> self.sandboxes.sandbox_selected
                < self.sandboxes.sandbox_names@.len(),
            name matches Some(s) ==> s@
                == self.sandboxes.sandbox_names@[self.sandboxes.sandbox_selected as int]@,
    {
        if self.sandboxes.sandbox_selected < self.sandboxes.sandbox_names.len() {
            Some(self.sandboxes.sandbox_names[self.sandboxes.sandbox_selected].as_str())
        } else {
            None
        }
    }

    /// The workspace of the selected sandbox row, or else the one shown.
    pub fn selected_sandbox_workspace(&self) -> (name: String)
        ensures
            name == self.sandbox_workspace(),
    {
        if self.sandboxes.sandbox_selected < self.sandboxes.sandbox_workspaces.len() {
            self.sandboxes.sandbox_workspaces[self.sandboxes.sandbox_selected].clone()
        } else {
            self.workspace.current_workspace.clone()
        }
    }

    /// The workspace of the selected provider row, or else the one shown.
    pub fn selected_provider_workspace(&self) -> (name: String)
        ensures
            name == self.provider_workspace(),
    {
        if self.provider.provider_selected < self.provider.provider_workspaces.len() {
            self.provider.provider_workspaces[self.provider.provider_selected].clone()
        } else {
            self.workspace.current_workspace.clone()
        }
    }

    /// The name of the selected provider.
    pub fn selected_provider_name(&self) -> (name: Option<&str>)
        ensures
            name is Some <==> self.provider.provider_selected
                < self.provider.provider_names@.len(),
            name matches Some(s) ==> s@
                == self.provider.provider_names@[self.provider.provider_selected as int]@,
    {
        if self.provider.provider_selected < self.provider.provider_names.len() {
            Some(self.provider.provider_names[self.provider.provider_selected].as_str())
        } else {
            None
        }
    }

    /// What the detail modal shows of `provider`; `profile_yaml` is the YAML form of its profile.
    pub fn provider_detail_from_provider(
        &self,
        provider: &Provider,
        profile_yaml: Option<String>,
    ) -> (view: ProviderDetailView)
        ensures
            shows_provider(
                *provider,
                profile_for(self.provider.provider_entries@, provider.id_text()),
                profile_yaml,
                view,
            ),
            view.wf(),
    {
        provider_detail(&self.provider.provider_entries, provider, profile_yaml)
    }

    /// Ends the task that streams logs.
    pub fn cancel_log_stream(&mut self)
        ensures
            *final(self) == (App { tasks: final(self).tasks, ..*old(self) }),
            old(self).tasks.ends_log_stream(final(self).tasks),
    {
        self.tasks.end_log_stream();
    }

    /// Ends the animation.
    pub fn stop_anim(&mut self)
        ensures
            *final(self) == (App { tasks: final(self).tasks, ..*old(self) }),
            old(self).tasks.ends_anim(final(self).tasks),
    {
        self.tasks.end_anim();
    }

    /// Empties the sandbox list.
    pub(crate) fn reset_sandboxes(&mut self)
        ensures
            *final(self) == (App { sandboxes: final(self).sandboxes, ..*old(self) }),
            final(self).sandboxes.no_sandboxes(),
            final(self).sandboxes.sandbox_draft_counts == old(self).sandboxes.sandbox_draft_counts,
    {
        self.sandboxes.reset();
    }

    /// What the create sandbox modal asks for, where it is open.
    pub fn create_form_data(&self) -> (data: Option<CreateFormData>)
        ensures
            data is Some <==> self.create.create_form is Some,
            data matches Some(d) ==> {
                let form = self.create.create_form->Some_0;
                &&& d.0 == form.name
                &&& d.1 == form.image
                &&& d.2 == form.command
                &&& texts(d.3@) == selected_names(form.providers@)
                &&& texts(d.4@) == port_texts(form.ports@)
            },
    {
        match &self.create.create_form {
            Some(form) => Some(form.data()),
            None => None,
        }
    }
}

/// A row is of its own workspace: that of the selected sandbox goes by the list of sandboxes, and
/// that of the selected provider by the list of providers; without one it is the current one.
pub proof fn lemma_rows_have_their_workspace(app: App)
    ensures
        ({
            let sandbox = app.sandboxes.sandbox_selected as int;
            let provider = app.provider.provider_selected as int;
            &&& sandbox < app.sandboxes.sandbox_workspaces@.len() ==> app.sandbox_workspace()
                == app.sandboxes.sandbox_workspaces@[sandbox]
            &&& sandbox >= app.sandboxes.sandbox_workspaces@.len() ==> app.sandbox_workspace()
                == app.workspace.current_workspace
            &&& provider < app.provider.provider_workspaces@.len() ==> app.provider_workspace()
                == app.provider.provider_workspaces@[provider]
            &&& provider >= app.provider.provider_workspaces@.len() ==> app.provider_workspace()
                == app.workspace.current_workspace
            &&& !app.workspace.all_workspaces ==> app.shown_workspace()
                == app.workspace.current_workspace@
            &&& app.workspace.all_workspaces ==> app.shown_workspace() == "all"@
        }),
{
}

/// A task that is ended is aborted, where it runs, and is then no longer known; the other task
/// goes on, and nothing that was to be aborted before is forgotten.
pub proof fn lemma_ended_tasks_are_aborted(before: Tasks, logs: Tasks, still: Tasks)
    requires
        before.ends_log_stream(logs),
        before.ends_anim(still),
    ensures
        logs.log_stream_handle is None,
        logs.anim_handle == before.anim_handle,
        before.log_stream_handle matches Some(task) ==> logs.cancelled_tasks@
            == before.cancelled_tasks@ + seq![task],
        before.log_stream_handle is None ==> logs.cancelled_tasks@ == before.cancelled_tasks@,
        still.anim_handle is None,
        still.log_stream_handle == before.log_stream_handle,
        before.anim_handle matches Some(task) ==> still.cancelled_tasks@ == before.cancelled_tasks@
            + seq![task],
        before.anim_handle is None ==> still.cancelled_tasks@ == before.cancelled_tasks@,
{
}

} // verus!
