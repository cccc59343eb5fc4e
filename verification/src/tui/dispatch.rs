//! What a key press makes of the interface.

use vstd::prelude::*;
use crate::text;
use crate::text::{texts, trimmed};
use crate::tui::app::{aborted, panel, panel_place, App, GatewayPane, SandboxList};
use crate::tui::context::KeyContext;
use crate::tui::create_sandbox::CreatePane;
use crate::tui::draft::{DraftOutcome, DraftPane};
use crate::tui::keys::{handle_text_input, typed, KeyCode, KeyEvent};
use crate::tui::logs::LogOutcome;
use crate::tui::model::{
    CreateFormField, CreatePhase, CreateSandboxForm, Focus, InputMode, MiddlePaneTab,
    SandboxPolicyTab, Screen,
};
use crate::tui::policy_pane::{PolicyOutcome, PolicyPane};
use crate::tui::provider_pane::ProviderPane;
use crate::tui::settings::{GlobalSettingsPane, SettingsOutcome};
use crate::tui::trust::TrustOutcome;

verus! {

/// The panel of the dashboard after `focus`.
fn panel_after(focus: Focus) -> (next: Focus)
    ensures
        next == panel(panel_place(focus) + 1),
{
    match focus {
        Focus::Providers => Focus::Sandboxes,
        Focus::Sandboxes => Focus::Gateways,
        _ => Focus::Providers,
    }
}

impl App {
    /// The interface about to end.
    pub open spec fn ended(self) -> Self {
        App { running: false, ..self }
    }

    /// The interface with the focus on `focus`.
    pub open spec fn focused(self, focus: Focus) -> Self {
        App { focus, ..self }
    }

    /// Whether `post` is `self` with `message` in the status line.
    pub open spec fn tells(self, message: Seq<char>, post: Self) -> bool {
        &&& post == (App { status_text: post.status_text, ..self })
        &&& post.status_text@ == message
    }

    /// Whether `post` is `self` with an empty command line open.
    pub open spec fn opens_command(self, post: Self) -> bool {
        &&& post == (App {
            input_mode: InputMode::Command,
            command_input: post.command_input,
            ..self
        })
        &&& post.command_input@ == Seq::<char>::empty()
    }

    fn open_command(&mut self)
        ensures
            old(self).opens_command(*final(self)),
    {
        self.input_mode = InputMode::Command;
        self.command_input.clear();
    }

    /// How many rows a panel of the dashboard has.
    pub open spec fn panel_rows(self, focus: Focus) -> int {
        match focus {
            Focus::Gateways => self.gateway.gateways@.len() as int,
            Focus::Providers => if self.provider.middle_pane_tab == MiddlePaneTab::GlobalSettings {
                self.settings.global_settings@.len() as int
            } else {
                self.provider.provider_count as int
            },
            Focus::Sandboxes => self.sandboxes.sandbox_count as int,
            _ => 0,
        }
    }

    fn panel_item_count(&self, focus: Focus) -> (n: usize)
        ensures
            n == self.panel_rows(focus),
    {
        match focus {
            Focus::Gateways => self.gateway.gateways.len(),
            Focus::Providers => if self.provider.middle_pane_tab == MiddlePaneTab::GlobalSettings {
                self.settings.global_settings.len()
            } else {
                self.provider.provider_count
            },
            Focus::Sandboxes => self.sandboxes.sandbox_count,
            _ => 0,
        }
    }

    /// The interface with the cursor of a panel of the dashboard on row `index`.
    pub open spec fn with_panel_row(self, focus: Focus, index: usize) -> Self {
        match focus {
            Focus::Gateways => App {
                gateway: GatewayPane { gateway_selected: index, ..self.gateway },
                ..self
            },
            Focus::Providers => if self.provider.middle_pane_tab == MiddlePaneTab::GlobalSettings {
                App {
                    settings: GlobalSettingsPane {
                        global_settings_selected: index,
                        ..self.settings
                    },
                    ..self
                }
            } else {
                App {
                    provider: ProviderPane { provider_selected: index, ..self.provider },
                    ..self
                }
            },
            Focus::Sandboxes => App {
                sandboxes: SandboxList { sandbox_selected: index, ..self.sandboxes },
                ..self
            },
            _ => self,
        }
    }

    fn set_panel_cursor(&mut self, focus: Focus, index: usize)
        ensures
            *final(self) == old(self).with_panel_row(focus, index),
    {
        match focus {
            Focus::Gateways => {
                self.gateway.gateway_selected = index;
            },
            Focus::Providers => {
                if self.provider.middle_pane_tab == MiddlePaneTab::GlobalSettings {
                    self.settings.global_settings_selected = index;
                } else {
                    self.provider.provider_selected = index;
                }
            },
            Focus::Sandboxes => {
                self.sandboxes.sandbox_selected = index;
            },
            _ => {},
        }
    }

    /// The next panel that has rows, counting the panel itself as the last one.
    pub open spec fn panel_below(self) -> Option<Focus> {
        let at = panel_place(self.focus);
        if self.panel_rows(panel(at + 1)) > 0 {
            Some(panel(at + 1))
        } else if self.panel_rows(panel(at + 2)) > 0 {
            Some(panel(at + 2))
        } else if self.panel_rows(panel(at)) > 0 {
            Some(panel(at))
        } else {
            None
        }
    }

    /// The panel before that has rows, counting the panel itself as the last one.
    pub open spec fn panel_above(self) -> Option<Focus> {
        let at = panel_place(self.focus);
        if self.panel_rows(panel(at + 2)) > 0 {
            Some(panel(at + 2))
        } else if self.panel_rows(panel(at + 1)) > 0 {
            Some(panel(at + 1))
        } else if self.panel_rows(panel(at)) > 0 {
            Some(panel(at))
        } else {
            None
        }
    }

    /// The interface with the focus on the first row of the next panel that has rows.
    pub open spec fn overflowed_down(self) -> Self {
        match self.panel_below() {
            Some(focus) => self.focused(focus).with_panel_row(focus, 0),
            None => self,
        }
    }

    /// The interface with the focus on the last row of the panel before that has rows.
    pub open spec fn overflowed_up(self) -> Self {
        match self.panel_above() {
            Some(focus) => self.focused(focus).with_panel_row(
                focus,
                (self.panel_rows(focus) - 1) as usize,
            ),
            None => self,
        }
    }

    fn overflow_focus_down(&mut self)
        ensures
            *final(self) == old(self).overflowed_down(),
            old(self).wf() ==> final(self).wf(),
    {
        let first = panel_after(self.focus);
        let second = panel_after(first);
        let own = panel_after(second);
        let next = if self.panel_item_count(first) > 0 {
            first
        } else if self.panel_item_count(second) > 0 {
            second
        } else {
            own
        };
        if self.panel_item_count(next) > 0 {
            self.focus = next;
            self.set_panel_cursor(next, 0);
        }
    }

    fn overflow_focus_up(&mut self)
        ensures
            *final(self) == old(self).overflowed_up(),
            old(self).wf() ==> final(self).wf(),
    {
        let second = panel_after(self.focus);
        let first = panel_after(second);
        let own = panel_after(first);
        let prev = if self.panel_item_count(first) > 0 {
            first
        } else if self.panel_item_count(second) > 0 {
            second
        } else {
            own
        };
        let count: usize = self.panel_item_count(prev);
        if count > 0 {
            self.focus = prev;
            self.set_panel_cursor(prev, count - 1);
        }
    }

    /// The interface after one row down from `row` in the focused panel.
    pub open spec fn row_down(self, focus: Focus, row: usize) -> Self {
        if row + 1 < self.panel_rows(focus) {
            self.with_panel_row(focus, (row + 1) as usize)
        } else {
            self.overflowed_down()
        }
    }

    /// The interface after one row up from `row` in the focused panel.
    pub open spec fn row_up(self, focus: Focus, row: usize) -> Self {
        if row > 0 && self.panel_rows(focus) > 0 {
            self.with_panel_row(focus, (row - 1) as usize)
        } else {
            self.overflowed_up()
        }
    }

    fn move_down(&mut self, focus: Focus, row: usize)
        ensures
            *final(self) == old(self).row_down(focus, row),
            old(self).wf() ==> final(self).wf(),
    {
        let rows: usize = self.panel_item_count(focus);
        if rows > 0 && row < rows - 1 {
            self.set_panel_cursor(focus, row + 1);
        } else {
            self.overflow_focus_down();
        }
    }

    fn move_up(&mut self, focus: Focus, row: usize)
        ensures
            *final(self) == old(self).row_up(focus, row),
            old(self).wf() ==> final(self).wf(),
    {
        if self.panel_item_count(focus) > 0 && row > 0 {
            self.set_panel_cursor(focus, row - 1);
        } else {
            self.overflow_focus_up();
        }
    }

    /// What a key pressed in the gateways panel makes of the interface.
    pub open spec fn gateways_step(self, key: KeyEvent, post: Self) -> bool {
        let at = self.gateway.gateway_selected;
        match key.code {
            KeyCode::Char('q') => post == self.ended(),
            KeyCode::Tab => post == self.focused(Focus::Providers),
            KeyCode::BackTab => post == self.focused(Focus::Sandboxes),
            KeyCode::Char(':') => self.opens_command(post),
            KeyCode::Char('j') | KeyCode::Down => post == self.row_down(Focus::Gateways, at),
            KeyCode::Char('k') | KeyCode::Up => post == self.row_up(Focus::Gateways, at),
            KeyCode::Enter => if at < self.gateway.gateways@.len() {
                let name = self.gateway.gateways@[at as int].name;
                post == (App {
                    focus: Focus::Providers,
                    gateway: GatewayPane {
                        pending_gateway_switch: if name@ != self.gateway.gateway_name@ {
                            Some(name)
                        } else {
                            self.gateway.pending_gateway_switch
                        },
                        ..self.gateway
                    },
                    ..self
                })
            } else {
                post == self
            },
            _ => post == self,
        }
    }

    fn handle_gateways_key(&mut self, key: KeyEvent)
        requires
            old(self).wf(),
        ensures
            old(self).gateways_step(key, *final(self)),
            final(self).wf(),
    {
        match key.code {
            KeyCode::Char('q') => {
                self.running = false;
            },
            KeyCode::Tab => {
                self.focus = Focus::Providers;
            },
            KeyCode::BackTab => {
                self.focus = Focus::Sandboxes;
            },
            KeyCode::Char(':') => {
                self.open_command();
            },
            KeyCode::Char('j') | KeyCode::Down => {
                self.move_down(Focus::Gateways, self.gateway.gateway_selected);
            },
            KeyCode::Char('k') | KeyCode::Up => {
                self.move_up(Focus::Gateways, self.gateway.gateway_selected);
            },
            KeyCode::Enter => {
                let at: usize = self.gateway.gateway_selected;
                if at < self.gateway.gateways.len() {
                    let same = text::same(
                        self.gateway.gateways[at].name.as_str(),
                        self.gateway.gateway_name.as_str(),
                    );
                    if !same {
                        let name = self.gateway.gateways[at].name.clone();
                        self.gateway.pending_gateway_switch = Some(name);
                    }
                    self.focus = Focus::Providers;
                }
            },
            _ => {},
        }
    }

    /// The interface with the other tab of the middle pane shown.
    pub open spec fn middle_tab_switched(self) -> Self {
        App {
            provider: ProviderPane {
                middle_pane_tab: self.provider.middle_pane_tab.after(),
                ..self.provider
            },
            ..self
        }
    }

    /// What a key pressed in the providers panel makes of the interface.
    pub open spec fn providers_step(self, key: KeyEvent, context: KeyContext, post: Self) -> bool {
        let some = self.provider.provider_count > 0;
        let editable = !self.provider.providers_v2_enabled;
        let at = self.provider.provider_selected;
        if self.provider.confirm_provider_delete {
            post == (App { provider: self.provider.after_confirm_key(key), ..self })
        } else {
            match key.code {
                KeyCode::Char('q') => post == self.ended(),
                KeyCode::Tab => post == self.focused(Focus::Sandboxes),
                KeyCode::BackTab => post == self.focused(Focus::Gateways),
                KeyCode::Char(':') => self.opens_command(post),
                KeyCode::Char('j') | KeyCode::Down => post == self.row_down(Focus::Providers, at),
                KeyCode::Char('k') | KeyCode::Up => post == self.row_up(Focus::Providers, at),
                KeyCode::Char('c') => if !editable {
                    post == self
                } else if self.workspace.all_workspaces {
                    self.tells("Switch to a specific workspace to create providers."@, post)
                } else {
                    &&& post == (App { provider: post.provider, ..self })
                    &&& self.provider.opens_create(context.provider_types@, post.provider)
                },
                KeyCode::Enter => post == (App {
                    provider: ProviderPane {
                        pending_provider_get: self.provider.pending_provider_get || some,
                        ..self.provider
                    },
                    ..self
                }),
                KeyCode::Char('u') => if some && editable {
                    &&& post == (App { provider: post.provider, ..self })
                    &&& self.provider.opens_update(context, post.provider)
                } else {
                    post == self
                },
                KeyCode::Char('d') => post == (App {
                    provider: ProviderPane {
                        confirm_provider_delete: some && editable,
                        ..self.provider
                    },
                    ..self
                }),
                KeyCode::Char('h')
                | KeyCode::Char('l')
                | KeyCode::Left
                | KeyCode::Right => post == self.middle_tab_switched(),
                _ => post == self,
            }
        }
    }

    fn handle_providers_key(&mut self, key: KeyEvent, context: &KeyContext)
        requires
            old(self).wf(),
            old(self).provider.middle_pane_tab == MiddlePaneTab::Providers,
        ensures
            old(self).providers_step(key, *context, *final(self)),
            final(self).wf(),
    {
        if self.provider.confirm_provider_delete {
            self.provider.handle_confirm_key(key);
            return;
        }
        let some = self.provider.provider_count > 0;
        let editable = !self.provider.providers_v2_enabled;
        match key.code {
            KeyCode::Char('q') => {
                self.running = false;
            },
            KeyCode::Tab => {
                self.focus = Focus::Sandboxes;
            },
            KeyCode::BackTab => {
                self.focus = Focus::Gateways;
            },
            KeyCode::Char(':') => {
                self.open_command();
            },
            KeyCode::Char('j') | KeyCode::Down => {
                self.move_down(Focus::Providers, self.provider.provider_selected);
            },
            KeyCode::Char('k') | KeyCode::Up => {
                self.move_up(Focus::Providers, self.provider.provider_selected);
            },
            KeyCode::Char('c') => {
                if editable {
                    if self.workspace.all_workspaces {
                        self.status_text =
                        "Switch to a specific workspace to create providers.".to_string();
                    } else {
                        self.provider.open_create_provider_form(&context.provider_types);
                    }
                }
            },
            KeyCode::Enter => {
                if some {
                    self.provider.pending_provider_get = true;
                }
            },
            KeyCode::Char('u') => {
                if some && editable {
                    self.provider.open_update_provider_form(context);
                }
            },
            KeyCode::Char('d') => {
                if some && editable {
                    self.provider.confirm_provider_delete = true;
                }
            },
            KeyCode::Char('h') | KeyCode::Char('l') | KeyCode::Left | KeyCode::Right => {
                self.provider.middle_pane_tab = self.provider.middle_pane_tab.next();
            },
            _ => {},
        }
    }

    /// What a key pressed in the global settings makes of the interface.
    pub open spec fn global_settings_step(self, key: KeyEvent, post: Self) -> bool {
        let at = self.settings.global_settings_selected;
        match key.code {
            KeyCode::Char('q') => post == self.ended(),
            KeyCode::Tab => post == self.focused(Focus::Sandboxes),
            KeyCode::BackTab => post == self.focused(Focus::Gateways),
            KeyCode::Char(':') => self.opens_command(post),
            KeyCode::Char('j') | KeyCode::Down => post == self.row_down(Focus::Providers, at),
            KeyCode::Char('k') | KeyCode::Up => post == self.row_up(Focus::Providers, at),
            KeyCode::Char('h')
            | KeyCode::Char('l')
            | KeyCode::Left
            | KeyCode::Right => post == self.middle_tab_switched(),
            KeyCode::Enter => {
                &&& post == (App { settings: post.settings, ..self })
                &&& self.settings.edit_step(post.settings)
            },
            KeyCode::Char('d') => post == (App { settings: self.settings.asking_delete(), ..self }),
            _ => post == self,
        }
    }

    fn handle_global_settings_key(&mut self, key: KeyEvent)
        requires
            old(self).wf(),
            old(self).provider.middle_pane_tab == MiddlePaneTab::GlobalSettings,
        ensures
            old(self).global_settings_step(key, *final(self)),
            final(self).wf(),
    {
        match key.code {
            KeyCode::Char('q') => {
                self.running = false;
            },
            KeyCode::Tab => {
                self.focus = Focus::Sandboxes;
            },
            KeyCode::BackTab => {
                self.focus = Focus::Gateways;
            },
            KeyCode::Char(':') => {
                self.open_command();
            },
            KeyCode::Char('j') | KeyCode::Down => {
                self.move_down(Focus::Providers, self.settings.global_settings_selected);
            },
            KeyCode::Char('k') | KeyCode::Up => {
                self.move_up(Focus::Providers, self.settings.global_settings_selected);
            },
            KeyCode::Char('h') | KeyCode::Char('l') | KeyCode::Left | KeyCode::Right => {
                self.provider.middle_pane_tab = self.provider.middle_pane_tab.next();
            },
            KeyCode::Enter => {
                self.settings.edit_selected();
            },
            KeyCode::Char('d') => {
                self.settings.ask_delete();
            },
            _ => {},
        }
    }

    /// Whether `post` is `self` with the create sandbox modal open.
    pub open spec fn opens_create_form(self, post: Self) -> bool {
        &&& post == (App {
            create: CreatePane { create_form: post.create.create_form, ..self.create },
            ..self
        })
        &&& post.create.create_form matches Some(form) && {
            &&& form.focused_field == CreateFormField::Name
            &&& form.name@ == Seq::<char>::empty()
            &&& form.image@ == Seq::<char>::empty()
            &&& form.command@ == Seq::<char>::empty()
            &&& self.provider.offers(form.providers@)
            &&& form.provider_cursor == 0
            &&& form.ports@ == Seq::<char>::empty()
            &&& form.status is None
            &&& form.phase == CreatePhase::Form
            &&& form.anim_start is None
            &&& form.create_result is None
        }
    }

    fn open_create_form(&mut self)
        requires
            old(self).wf(),
        ensures
            old(self).opens_create_form(*final(self)),
            final(self).wf(),
    {
        let providers = self.provider.offered_providers();
        self.create.create_form = Some(CreateSandboxForm::with_providers(providers));
    }

    /// The interface with the selected sandbox on its screen, where there is one.
    pub open spec fn sandbox_opened(self) -> Self {
        if self.sandboxes.sandbox_count > 0 {
            App {
                trust: self.trust.cleared(),
                screen: Screen::Sandbox,
                focus: Focus::SandboxPolicy,
                policy: PolicyPane {
                    confirm_delete: false,
                    pending_sandbox_detail: true,
                    ..self.policy
                },
                ..self
            }
        } else {
            self
        }
    }

    fn open_sandbox(&mut self)
        requires
            old(self).wf(),
        ensures
            *final(self) == old(self).sandbox_opened(),
            final(self).wf(),
    {
        if self.sandboxes.sandbox_count > 0 {
            self.trust.clear_sandbox_attestation();
            self.screen = Screen::Sandbox;
            self.focus = Focus::SandboxPolicy;
            self.policy.confirm_delete = false;
            self.policy.pending_sandbox_detail = true;
        }
    }

    /// What a key pressed in the sandboxes panel makes of the interface.
    pub open spec fn sandboxes_step(self, key: KeyEvent, post: Self) -> bool {
        let at = self.sandboxes.sandbox_selected;
        match key.code {
            KeyCode::Char('q') => post == self.ended(),
            KeyCode::Tab => post == self.focused(Focus::Gateways),
            KeyCode::BackTab | KeyCode::Esc => post == self.focused(Focus::Providers),
            KeyCode::Char(':') => self.opens_command(post),
            KeyCode::Char('w') => self.cycles_workspace(post),
            KeyCode::Char('j') | KeyCode::Down => post == self.row_down(Focus::Sandboxes, at),
            KeyCode::Char('k') | KeyCode::Up => post == self.row_up(Focus::Sandboxes, at),
            KeyCode::Char('c') => if self.workspace.all_workspaces {
                self.tells("Switch to a specific workspace to create sandboxes."@, post)
            } else {
                self.opens_create_form(post)
            },
            KeyCode::Enter => post == self.sandbox_opened(),
            _ => post == self,
        }
    }

    fn handle_sandboxes_key(&mut self, key: KeyEvent)
        requires
            old(self).wf(),
        ensures
            old(self).sandboxes_step(key, *final(self)),
            final(self).wf(),
    {
        match key.code {
            KeyCode::Char('q') => {
                self.running = false;
            },
            KeyCode::Tab => {
                self.focus = Focus::Gateways;
            },
            KeyCode::BackTab | KeyCode::Esc => {
                self.focus = Focus::Providers;
            },
            KeyCode::Char(':') => {
                self.open_command();
            },
            KeyCode::Char('w') => {
                self.cycle_workspace();
            },
            KeyCode::Char('j') | KeyCode::Down => {
                self.move_down(Focus::Sandboxes, self.sandboxes.sandbox_selected);
            },
            KeyCode::Char('k') | KeyCode::Up => {
                self.move_up(Focus::Sandboxes, self.sandboxes.sandbox_selected);
            },
            KeyCode::Char('c') => {
                if self.workspace.all_workspaces {
                    self.status_text =
                    "Switch to a specific workspace to create sandboxes.".to_string();
                } else {
                    self.open_create_form();
                }
            },
            KeyCode::Enter => {
                self.open_sandbox();
            },
            _ => {},
        }
    }

    /// Whether `post` is `self` back on the dashboard, with the appraisal dropped and the log
    /// stream ended.
    pub open spec fn leaves_sandbox(self, draft: DraftPane, post: Self) -> bool {
        &&& post == (App {
            trust: self.trust.cleared(),
            tasks: post.tasks,
            draft,
            policy: PolicyPane { sandbox_policy_tab: SandboxPolicyTab::Policy, ..self.policy },
            screen: Screen::Dashboard,
            focus: Focus::Sandboxes,
            ..self
        })
        &&& self.tasks.ends_log_stream(post.tasks)
    }

    fn leave_sandbox(&mut self)
        requires
            old(self).wf(),
        ensures
            old(self).leaves_sandbox(old(self).draft, *final(self)),
            final(self).wf(),
    {
        self.trust.clear_sandbox_attestation();
        self.cancel_log_stream();
        self.policy.sandbox_policy_tab = SandboxPolicyTab::Policy;
        self.screen = Screen::Dashboard;
        self.focus = Focus::Sandboxes;
    }

    /// Whether `post` is `self` with the emptied log pane in focus.
    pub open spec fn opens_logs(self, post: Self) -> bool {
        &&& post == (App { logs: post.logs, focus: Focus::SandboxLogs, ..self })
        &&& self.logs.reopens(post.logs)
    }

    fn open_logs(&mut self)
        requires
            old(self).wf(),
        ensures
            old(self).opens_logs(*final(self)),
            final(self).wf(),
    {
        self.logs.reopen();
        self.focus = Focus::SandboxLogs;
    }

    /// The interface with the next tab of the sandbox screen shown.
    pub open spec fn tab_switched(self) -> Self {
        App {
            policy: PolicyPane {
                sandbox_policy_tab: self.policy.sandbox_policy_tab.after(),
                ..self.policy
            },
            ..self
        }
    }

    /// What a key pressed in the policy tab makes of the interface.
    pub open spec fn policy_tab_step(self, key: KeyEvent, post: Self) -> bool {
        let policy = self.policy.after_key(key, self.sandboxes.sandbox_count);
        match PolicyPane::outcome(key) {
            PolicyOutcome::Stay => post == (App { policy, ..self }),
            PolicyOutcome::Quit => post == self.ended(),
            PolicyOutcome::Leave => self.leaves_sandbox(self.draft.without_detail(), post),
            PolicyOutcome::ToLogs => self.opens_logs(post),
            PolicyOutcome::ToDraft => post == self.focused(Focus::SandboxDraft),
        }
    }

    /// What a key pressed in the settings tab makes of the interface.
    pub open spec fn settings_tab_step(self, key: KeyEvent, post: Self) -> bool {
        match self.sandbox_settings.outcome(key) {
            SettingsOutcome::Stay => {
                &&& post == (App { sandbox_settings: post.sandbox_settings, ..self })
                &&& self.sandbox_settings.key_step(key, post.sandbox_settings)
            },
            SettingsOutcome::Quit => post == self.ended(),
            SettingsOutcome::Leave => self.leaves_sandbox(self.draft, post),
            SettingsOutcome::NextTab => post == self.tab_switched(),
            SettingsOutcome::ManagedGlobally => self.tells(
                "'"@ + self.sandbox_settings.sandbox_settings@[
                    self.sandbox_settings.sandbox_settings_selected as int].key@
                    + "' is managed globally -- delete the global setting first"@,
                post,
            ),
        }
    }

    /// What a key pressed in the trust tab makes of the interface.
    pub open spec fn trust_tab_step(self, key: KeyEvent, post: Self) -> bool {
        let trust = self.trust.after_key(key);
        match self.trust.outcome(key) {
            TrustOutcome::Stay => post == (App { trust, ..self }),
            TrustOutcome::Quit => post == self.ended(),
            TrustOutcome::Leave => self.leaves_sandbox(self.draft, post),
            TrustOutcome::NextTab => post == (App { trust, ..self.tab_switched() }),
            TrustOutcome::Request => (App { trust, ..self }).tells(
                "requesting fresh sandbox appraisal..."@,
                post,
            ),
        }
    }

    /// What a key pressed in the bottom pane of the sandbox screen makes of the interface.
    pub open spec fn policy_step(self, key: KeyEvent, post: Self) -> bool {
        if self.policy.confirm_delete {
            post == (App { policy: self.policy.after_confirm_key(key), ..self })
        } else {
            match self.policy.sandbox_policy_tab {
                SandboxPolicyTab::Policy => self.policy_tab_step(key, post),
                SandboxPolicyTab::Settings => self.settings_tab_step(key, post),
                SandboxPolicyTab::Trust => self.trust_tab_step(key, post),
            }
        }
    }

    fn handle_policy_tab_key(&mut self, key: KeyEvent)
        requires
            old(self).wf(),
        ensures
            old(self).policy_tab_step(key, *final(self)),
            final(self).wf(),
    {
        match self.policy.handle_key(key, self.sandboxes.sandbox_count) {
            PolicyOutcome::Stay => {},
            PolicyOutcome::Quit => {
                self.running = false;
            },
            PolicyOutcome::Leave => {
                self.leave_sandbox();
                self.draft.close_detail();
            },
            PolicyOutcome::ToLogs => {
                self.open_logs();
            },
            PolicyOutcome::ToDraft => {
                self.focus = Focus::SandboxDraft;
            },
        }
    }

    fn handle_sandbox_settings_key(&mut self, key: KeyEvent)
        requires
            old(self).wf(),
        ensures
            old(self).settings_tab_step(key, *final(self)),
            final(self).wf(),
    {
        match self.sandbox_settings.handle_key(key) {
            SettingsOutcome::Stay => {},
            SettingsOutcome::Quit => {
                self.running = false;
            },
            SettingsOutcome::Leave => {
                self.leave_sandbox();
            },
            SettingsOutcome::NextTab => {
                self.policy.sandbox_policy_tab = self.policy.sandbox_policy_tab.next();
            },
            SettingsOutcome::ManagedGlobally => {
                let at: usize = self.sandbox_settings.sandbox_settings_selected;
                let mut message = "'".to_string();
                message.append(self.sandbox_settings.sandbox_settings[at].key.as_str());
                message.append("' is managed globally -- delete the global setting first");
                self.status_text = message;
            },
        }
    }

    fn handle_sandbox_trust_key(&mut self, key: KeyEvent)
        requires
            old(self).wf(),
        ensures
            old(self).trust_tab_step(key, *final(self)),
            final(self).wf(),
    {
        if self.trust.leaves(key) {
            self.leave_sandbox();
            return;
        }
        match self.trust.handle_key(key) {
            TrustOutcome::Stay | TrustOutcome::Leave => {},
            TrustOutcome::Quit => {
                self.running = false;
            },
            TrustOutcome::NextTab => {
                self.policy.sandbox_policy_tab = self.policy.sandbox_policy_tab.next();
            },
            TrustOutcome::Request => {
                self.status_text = "requesting fresh sandbox appraisal...".to_string();
            },
        }
    }

    fn handle_policy_key(&mut self, key: KeyEvent)
        requires
            old(self).wf(),
        ensures
            old(self).policy_step(key, *final(self)),
            final(self).wf(),
    {
        if self.policy.confirm_delete {
            self.policy.handle_confirm_key(key);
            return;
        }
        match self.policy.sandbox_policy_tab {
            SandboxPolicyTab::Policy => {
                self.handle_policy_tab_key(key);
            },
            SandboxPolicyTab::Settings => {
                self.handle_sandbox_settings_key(key);
            },
            SandboxPolicyTab::Trust => {
                self.handle_sandbox_trust_key(key);
            },
        }
    }

    /// What a key pressed in the log pane makes of the interface.
    pub open spec fn logs_step(self, key: KeyEvent, post: Self) -> bool {
        let logs = self.logs.after_key(key);
        match self.logs.outcome(key) {
            LogOutcome::Stay => post == (App { logs, ..self }),
            LogOutcome::Quit => post == self.ended(),
            LogOutcome::EndStream => {
                &&& post == (App { tasks: post.tasks, focus: Focus::SandboxPolicy, logs, ..self })
                &&& self.tasks.ends_log_stream(post.tasks)
            },
            LogOutcome::ToPolicy => post == (App { focus: Focus::SandboxPolicy, logs, ..self }),
            LogOutcome::ToDraft => post == (App { focus: Focus::SandboxDraft, logs, ..self }),
        }
    }

    fn handle_logs_key(&mut self, key: KeyEvent)
        requires
            old(self).wf(),
            old(self).logs.copies_within(key),
        ensures
            old(self).logs_step(key, *final(self)),
            final(self).wf(),
    {
        match self.logs.handle_key(key) {
            LogOutcome::Stay => {},
            LogOutcome::Quit => {
                self.running = false;
            },
            LogOutcome::EndStream => {
                self.cancel_log_stream();
                self.focus = Focus::SandboxPolicy;
            },
            LogOutcome::ToPolicy => {
                self.focus = Focus::SandboxPolicy;
            },
            LogOutcome::ToDraft => {
                self.focus = Focus::SandboxDraft;
            },
        }
    }

    /// What a key pressed in the pane of proposed rules makes of the interface.
    pub open spec fn draft_step(self, key: KeyEvent, post: Self) -> bool {
        let global = self.policy.sandbox_policy_is_global;
        match self.draft.outcome(key, global) {
            DraftOutcome::Stay => {
                &&& post == (App { draft: post.draft, ..self })
                &&& self.draft.key_step(key, global, post.draft)
            },
            DraftOutcome::Quit => post == self.ended(),
            DraftOutcome::ToPolicy => post == self.focused(Focus::SandboxPolicy),
            DraftOutcome::ToLogs => self.opens_logs(post),
            DraftOutcome::CannotApprove => self.tells(
                "Cannot approve rules while a global policy is active"@,
                post,
            ),
            DraftOutcome::CannotModify => self.tells(
                "Cannot modify rules while a global policy is active"@,
                post,
            ),
        }
    }

    fn handle_draft_key(&mut self, key: KeyEvent)
        requires
            old(self).wf(),
        ensures
            old(self).draft_step(key, *final(self)),
            final(self).wf(),
    {
        match self.draft.handle_key(key, self.policy.sandbox_policy_is_global) {
            DraftOutcome::Stay => {},
            DraftOutcome::Quit => {
                self.running = false;
            },
            DraftOutcome::ToPolicy => {
                self.focus = Focus::SandboxPolicy;
            },
            DraftOutcome::ToLogs => {
                self.open_logs();
            },
            DraftOutcome::CannotApprove => {
                self.status_text =
                "Cannot approve rules while a global policy is active".to_string();
            },
            DraftOutcome::CannotModify => {
                self.status_text =
                "Cannot modify rules while a global policy is active".to_string();
            },
        }
    }

    /// What a key pressed outside of modals and the command line makes of the interface.
    pub open spec fn normal_step(self, key: KeyEvent, context: KeyContext, post: Self) -> bool {
        match self.focus {
            Focus::Gateways => self.gateways_step(key, post),
            Focus::Providers => if self.provider.middle_pane_tab == MiddlePaneTab::GlobalSettings {
                self.global_settings_step(key, post)
            } else {
                self.providers_step(key, context, post)
            },
            Focus::Sandboxes => self.sandboxes_step(key, post),
            Focus::SandboxPolicy => self.policy_step(key, post),
            Focus::SandboxLogs => self.logs_step(key, post),
            Focus::SandboxDraft => self.draft_step(key, post),
        }
    }

    fn handle_normal_key(&mut self, key: KeyEvent, context: &KeyContext)
        requires
            old(self).wf(),
            old(self).focus == Focus::SandboxLogs ==> old(self).logs.copies_within(key),
        ensures
            old(self).normal_step(key, *context, *final(self)),
            final(self).wf(),
    {
        match self.focus {
            Focus::Gateways => {
                self.handle_gateways_key(key);
            },
            Focus::Providers => {
                if self.provider.middle_pane_tab == MiddlePaneTab::GlobalSettings {
                    self.handle_global_settings_key(key);
                } else {
                    self.handle_providers_key(key, context);
                }
            },
            Focus::Sandboxes => {
                self.handle_sandboxes_key(key);
            },
            Focus::SandboxPolicy => {
                self.handle_policy_key(key);
            },
            Focus::SandboxLogs => {
                self.handle_logs_key(key);
            },
            Focus::SandboxDraft => {
                self.handle_draft_key(key);
            },
        }
    }

    /// Whether the command line holds the command to end the interface.
    pub open spec fn quits(self) -> bool {
        let command = trimmed(self.command_input@);
        command == "q"@ || command == "quit"@
    }

    /// What a key pressed in the command line makes of the interface.
    pub open spec fn command_step(self, key: KeyEvent, post: Self) -> bool {
        match key.code {
            KeyCode::Esc | KeyCode::Enter => {
                &&& post == (App {
                    running: self.running && !(key.code == KeyCode::Enter && self.quits()),
                    input_mode: InputMode::Normal,
                    command_input: post.command_input,
                    ..self
                })
                &&& post.command_input@ == Seq::<char>::empty()
            },
            _ => {
                &&& post == (App { command_input: post.command_input, ..self })
                &&& post.command_input@ == typed(self.command_input@, key.code)
            },
        }
    }

    fn execute_command(&mut self)
        ensures
            *final(self) == (App {
                running: old(self).running && !old(self).quits(),
                ..*old(self)
            }),
    {
        let command = text::trim(self.command_input.as_str());
        if text::same(command, "q") || text::same(command, "quit") {
            self.running = false;
        }
    }

    fn handle_command_key(&mut self, key: KeyEvent)
        requires
            old(self).wf(),
        ensures
            old(self).command_step(key, *final(self)),
            final(self).wf(),
    {
        match key.code {
            KeyCode::Esc => {
                self.input_mode = InputMode::Normal;
                self.command_input.clear();
            },
            KeyCode::Enter => {
                self.execute_command();
                self.input_mode = InputMode::Normal;
                self.command_input.clear();
            },
            _ => {
                handle_text_input(&mut self.command_input, key);
            },
        }
    }

    /// Whether a modal that goes before those of the providers takes the keys.
    pub open spec fn modal_before_providers(self) -> bool {
        ||| self.settings.confirm_setting_set is Some
        ||| self.settings.confirm_setting_delete is Some
        ||| self.sandbox_settings.sandbox_confirm_setting_set is Some
        ||| self.sandbox_settings.sandbox_confirm_setting_delete is Some
        ||| self.sandbox_settings.sandbox_setting_edit is Some
        ||| self.settings.setting_edit is Some
        ||| self.create.create_form is Some
    }

    /// Whether a modal takes the keys.
    pub open spec fn modal_open(self) -> bool {
        ||| self.modal_before_providers()
        ||| self.provider.create_provider_form is Some
        ||| self.provider.provider_detail is Some
        ||| self.provider.update_provider_form is Some
    }

    /// What a key pressed while a modal is open makes of the interface. A confirmation goes
    /// before the editor, which stays open behind it.
    pub open spec fn modal_step(self, key: KeyEvent, context: KeyContext, post: Self) -> bool {
        if self.settings.confirm_setting_set is Some {
            post == (App { settings: self.settings.after_confirm_set(key), ..self })
        } else if self.settings.confirm_setting_delete is Some {
            post == (App { settings: self.settings.after_confirm_delete(key), ..self })
        } else if self.sandbox_settings.sandbox_confirm_setting_set is Some {
            post == (App { sandbox_settings: self.sandbox_settings.after_confirm_set(key), ..self })
        } else if self.sandbox_settings.sandbox_confirm_setting_delete is Some {
            post == (App {
                sandbox_settings: self.sandbox_settings.after_confirm_delete(key),
                ..self
            })
        } else if self.sandbox_settings.sandbox_setting_edit is Some {
            &&& post == (App { sandbox_settings: post.sandbox_settings, ..self })
            &&& self.sandbox_settings.editor_step(
                key,
                context.setting_check,
                post.sandbox_settings,
            )
        } else if self.settings.setting_edit is Some {
            &&& post == (App { settings: post.settings, ..self })
            &&& self.settings.editor_step(key, context.setting_check, post.settings)
        } else if self.create.create_form is Some {
            &&& post == (App { create: post.create, ..self })
            &&& self.create.key_step(key, context.now, post.create)
        } else if self.provider.create_provider_form is Some {
            &&& post == (App { provider: post.provider, ..self })
            &&& self.provider.create_step(key, context, post.provider)
        } else if self.provider.provider_detail is Some {
            post == (App { provider: self.provider.after_detail_key(key), ..self })
        } else {
            &&& post == (App { provider: post.provider, ..self })
            &&& self.provider.update_step(key, post.provider)
        }
    }

    /// Whether `key` has a provider type to take where it takes one in the create modal.
    pub open spec fn has_choice(self, key: KeyEvent) -> bool {
        !self.modal_before_providers() ==> (self.provider.create_provider_form matches Some(form)
            ==> form.has_choice(key))
    }

    fn handle_modal_key(&mut self, key: KeyEvent, context: &KeyContext) -> (handled: bool)
        requires
            old(self).wf(),
            old(self).has_choice(key),
        ensures
            handled == old(self).modal_open(),
            handled ==> old(self).modal_step(key, *context, *final(self)),
            !handled ==> *final(self) == *old(self),
            final(self).wf(),
    {
        if self.settings.confirm_setting_set.is_some() {
            self.settings.handle_setting_confirm_set_key(key);
            true
        } else if self.settings.confirm_setting_delete.is_some() {
            self.settings.handle_setting_confirm_delete_key(key);
            true
        } else if self.sandbox_settings.sandbox_confirm_setting_set.is_some() {
            self.sandbox_settings.handle_sandbox_setting_confirm_set_key(key);
            true
        } else if self.sandbox_settings.sandbox_confirm_setting_delete.is_some() {
            self.sandbox_settings.handle_sandbox_setting_confirm_delete_key(key);
            true
        } else if self.sandbox_settings.sandbox_setting_edit.is_some() {
            self.sandbox_settings.handle_sandbox_setting_edit_key(key, &context.setting_check);
            true
        } else if self.settings.setting_edit.is_some() {
            self.settings.handle_setting_edit_key(key, &context.setting_check);
            true
        } else if self.create.create_form.is_some() {
            self.create.handle_key(key, context.now);
            true
        } else if self.provider.create_provider_form.is_some() {
            self.provider.handle_create_provider_key(key, context);
            true
        } else if self.provider.provider_detail.is_some() {
            self.provider.handle_provider_detail_key(key);
            true
        } else if self.provider.update_provider_form.is_some() {
            self.provider.handle_update_provider_key(key);
            true
        } else {
            false
        }
    }

    /// Whether `key` interrupts the interface.
    pub open spec fn interrupts(key: KeyEvent) -> bool {
        key.control && key.code == KeyCode::Char('c')
    }

    /// What a key press makes of the interface.
    pub open spec fn key_step(self, key: KeyEvent, context: KeyContext, post: Self) -> bool {
        if Self::interrupts(key) {
            post == self.ended()
        } else if self.screen == Screen::Splash {
            post == self.without_splash()
        } else if self.modal_open() {
            self.modal_step(key, context, post)
        } else if self.input_mode == InputMode::Command {
            self.command_step(key, post)
        } else {
            self.normal_step(key, context, post)
        }
    }

    /// Whether `key` reaches the log pane.
    pub open spec fn reaches_logs(self, key: KeyEvent) -> bool {
        &&& !Self::interrupts(key)
        &&& self.screen != Screen::Splash
        &&& !self.modal_open()
        &&& self.input_mode == InputMode::Normal
        &&& self.focus == Focus::SandboxLogs
    }

    /// Whether the interface can take `key`: the log lines that it would copy begin within the
    /// log, and where it would take a provider type there is one.
    pub open spec fn accepts(self, key: KeyEvent) -> bool {
        &&& self.reaches_logs(key) ==> self.logs.copies_within(key)
        &&& !Self::interrupts(key) && self.screen != Screen::Splash ==> self.has_choice(key)
    }

    /// Tells whether the interface can take `key`.
    pub fn can_handle(&self, key: KeyEvent) -> (yes: bool)
        requires
            self.wf(),
        ensures
            yes == self.accepts(key),
    {
        if key.control && key.code == KeyCode::Char('c') || self.screen == Screen::Splash {
            return true;
        }
        if self.settings.confirm_setting_set.is_some()
            || self.settings.confirm_setting_delete.is_some()
            || self.sandbox_settings.sandbox_confirm_setting_set.is_some()
            || self.sandbox_settings.sandbox_confirm_setting_delete.is_some()
            || self.sandbox_settings.sandbox_setting_edit.is_some()
            || self.settings.setting_edit.is_some() || self.create.create_form.is_some() {
            return true;
        }
        if let Some(form) = &self.provider.create_provider_form {
            return form.can_choose(key);
        }
        if self.provider.provider_detail.is_some() || self.provider.update_provider_form.is_some()
            || self.input_mode != InputMode::Normal || self.focus != Focus::SandboxLogs {
            return true;
        }
        self.logs.can_copy(key)
    }

    /// Handles a key press.
    pub fn handle_key(&mut self, key: KeyEvent, context: &KeyContext)
        requires
            old(self).wf(),
            old(self).accepts(key),
        ensures
            old(self).key_step(key, *context, *final(self)),
            final(self).wf(),
    {
        if key.control && key.code == KeyCode::Char('c') {
            self.running = false;
            return;
        }
        if self.screen == Screen::Splash {
            self.dismiss_splash();
            return;
        }
        if self.handle_modal_key(key, context) {
            return;
        }
        match self.input_mode {
            InputMode::Command => {
                self.handle_command_key(key);
            },
            InputMode::Normal => {
                self.handle_normal_key(key, context);
            },
        }
    }

    /// Whether `post` is `self` before another gateway has answered.
    pub open spec fn forgets_gateway(self, post: Self) -> bool {
        &&& post == (App {
            tasks: post.tasks,
            sandboxes: post.sandboxes,
            logs: post.logs,
            policy: post.policy,
            trust: self.trust.cleared(),
            settings: post.settings,
            provider: post.provider,
            status_text: post.status_text,
            screen: if self.screen == Screen::Sandbox {
                Screen::Dashboard
            } else {
                self.screen
            },
            focus: if self.screen == Screen::Sandbox {
                Focus::Sandboxes
            } else {
                self.focus
            },
            ..self
        })
        &&& post.tasks.anim_handle is None
        &&& post.tasks.log_stream_handle is None
        &&& post.tasks.cancelled_tasks@ == aborted(
            aborted(self.tasks.cancelled_tasks@, self.tasks.anim_handle),
            self.tasks.log_stream_handle,
        )
        &&& post.sandboxes.no_sandboxes()
        &&& post.sandboxes.sandbox_draft_counts == self.sandboxes.sandbox_draft_counts
        &&& self.logs.empties(post.logs)
        &&& self.policy.empties(post.policy)
        &&& self.settings.forgets_gateway(post.settings)
        &&& self.provider.forgets_gateway(post.provider)
        &&& post.status_text@ == "connecting..."@
    }

    /// Drops the state of sandboxes and providers once another gateway was chosen.
    pub fn reset_sandbox_state(&mut self)
        requires
            old(self).wf(),
        ensures
            old(self).forgets_gateway(*final(self)),
            final(self).wf(),
    {
        self.stop_anim();
        self.cancel_log_stream();
        self.reset_sandboxes();
        self.logs.reset();
        self.policy.reset();
        self.trust.clear_sandbox_attestation();
        self.settings.forget_gateway();
        self.provider.forget_gateway();
        self.status_text = "connecting...".to_string();
        if self.screen == Screen::Sandbox {
            self.screen = Screen::Dashboard;
            self.focus = Focus::Sandboxes;
        }
    }
}

/// Control-C ends the interface, whatever is open, and changes nothing else.
pub proof fn lemma_control_c_always_quits(app: App, key: KeyEvent, context: KeyContext, post: App)
    requires
        app.key_step(key, context, post),
        App::interrupts(key),
    ensures
        !post.running,
        post == app.ended(),
{
}

/// The interface ends only where that is asked for: by Ctrl-C, by `q` where no modal and no command
/// line takes it, or by a command.
pub proof fn lemma_only_a_wish_ends_the_interface(
    app: App,
    key: KeyEvent,
    context: KeyContext,
    post: App,
)
    requires
        app.key_step(key, context, post),
        app.running,
        !post.running,
    ensures
        !App::interrupts(key) ==> {
            &&& app.screen != Screen::Splash
            &&& !app.modal_open()
            &&& if app.input_mode == InputMode::Command {
                key.code == KeyCode::Enter && app.quits()
            } else {
                key.code == KeyCode::Char('q')
            }
        },
{
}

/// Any other key on the splash screen shows the dashboard and does nothing else.
pub proof fn lemma_any_key_dismisses_splash(app: App, key: KeyEvent, context: KeyContext, post: App)
    requires
        app.key_step(key, context, post),
        app.screen == Screen::Splash,
        !App::interrupts(key),
    ensures
        post.screen == Screen::Dashboard,
        post == app.without_splash(),
{
}

/// An open modal takes every key: nothing of the panes behind it moves and the interface goes
/// on.
pub proof fn lemma_modal_takes_all_keys(app: App, key: KeyEvent, context: KeyContext, post: App)
    requires
        app.key_step(key, context, post),
        app.modal_open(),
        app.screen != Screen::Splash,
        !App::interrupts(key),
    ensures
        post.running == app.running,
        post.screen == app.screen,
        post.focus == app.focus,
        post.input_mode == app.input_mode,
        post.logs == app.logs,
        post.draft == app.draft,
        post.policy == app.policy,
        post.trust == app.trust,
        post.sandboxes == app.sandboxes,
        post.gateway == app.gateway,
        post.workspace == app.workspace,
{
}

/// Leaving the sandbox screen drops the appraisal, so that a reply to an earlier request is not
/// taken for a later one.
pub proof fn lemma_leaving_sandbox_drops_appraisal(
    app: App,
    key: KeyEvent,
    context: KeyContext,
    post: App,
)
    requires
        app.key_step(key, context, post),
        app.screen == Screen::Sandbox,
        app.focus == Focus::SandboxPolicy,
        post.screen == Screen::Dashboard,
    ensures
        post.trust.sandbox_attestation is None,
        post.trust.sandbox_attestation_request_id != app.trust.sandbox_attestation_request_id,
        post.tasks.log_stream_handle is None,
{
}

impl App {
    /// Whether a key reaches the panel in focus: no interrupt, no splash screen, no modal and no
    /// command line takes it.
    pub open spec fn reaches_panel(self, key: KeyEvent) -> bool {
        &&& !(key.control && key.code == KeyCode::Char('c'))
        &&& self.screen != Screen::Splash
        &&& self.settings.confirm_setting_set is None
        &&& self.settings.confirm_setting_delete is None
        &&& self.settings.setting_edit is None
        &&& self.sandbox_settings.sandbox_confirm_setting_set is None
        &&& self.sandbox_settings.sandbox_confirm_setting_delete is None
        &&& self.sandbox_settings.sandbox_setting_edit is None
        &&& self.create.create_form is None
        &&& self.provider.create_provider_form is None
        &&& self.provider.provider_detail is None
        &&& self.provider.update_provider_form is None
        &&& self.input_mode == InputMode::Normal
    }

    /// Whether the list of providers is in focus, with no question open.
    pub open spec fn lists_providers(self) -> bool {
        &&& self.focus == Focus::Providers
        &&& self.provider.middle_pane_tab == MiddlePaneTab::Providers
        &&& !self.provider.confirm_provider_delete
    }

    /// Whether the global settings are in focus.
    pub open spec fn lists_settings(self) -> bool {
        self.focus == Focus::Providers && self.provider.middle_pane_tab
            == MiddlePaneTab::GlobalSettings
    }
}

/// On the dashboard, tab goes from the gateways to the providers, from there to the sandboxes and
/// back to the gateways, and its opposite the other way round; nothing else changes.
pub proof fn lemma_tab_goes_round_the_dashboard(app: App, key: KeyEvent, context: KeyContext, post: App)
    requires
        app.key_step(key, context, post),
        app.reaches_panel(key),
        key.code == KeyCode::Tab || key.code == KeyCode::BackTab,
    ensures
        app.focus == Focus::Gateways ==> post == (App {
            focus: if key.code == KeyCode::Tab {
                Focus::Providers
            } else {
                Focus::Sandboxes
            },
            ..app
        }),
        app.lists_providers() || app.lists_settings() ==> post == (App {
            focus: if key.code == KeyCode::Tab {
                Focus::Sandboxes
            } else {
                Focus::Gateways
            },
            ..app
        }),
        app.focus == Focus::Sandboxes ==> post == (App {
            focus: if key.code == KeyCode::Tab {
                Focus::Gateways
            } else {
                Focus::Providers
            },
            ..app
        }),
{
}

/// Another gateway is asked for by enter on its row alone, and by its name.
pub proof fn lemma_gateways_are_switched_by_row(app: App, key: KeyEvent, context: KeyContext, post: App)
    requires
        app.key_step(key, context, post),
    ensures
        ({
            let at = app.gateway.gateway_selected;
            let asks = app.reaches_panel(key) && app.focus == Focus::Gateways && key.code
                == KeyCode::Enter && at < app.gateway.gateways@.len();
            &&& asks && app.gateway.gateways@[at as int].name@ != app.gateway.gateway_name@
                ==> post.gateway.pending_gateway_switch == Some(
                app.gateway.gateways@[at as int].name,
            )
            &&& asks ==> post.focus == Focus::Providers
            &&& !asks || app.gateway.gateways@[at as int].name@ == app.gateway.gateway_name@
                ==> post.gateway.pending_gateway_switch == app.gateway.pending_gateway_switch
            &&& post.gateway.gateways == app.gateway.gateways
            &&& post.gateway.gateway_name == app.gateway.gateway_name
        }),
{
    lemma_row_keeps(app, key);
}

proof fn lemma_row_keeps(app: App, key: KeyEvent)
    ensures
        forall|focus: Focus, row: usize|
            #![trigger app.row_down(focus, row)]
            {
                let moved = app.row_down(focus, row);
                &&& moved.gateway.pending_gateway_switch == app.gateway.pending_gateway_switch
                &&& moved.gateway.gateways == app.gateway.gateways
                &&& moved.gateway.gateway_name == app.gateway.gateway_name
            },
        forall|focus: Focus, row: usize|
            #![trigger app.row_up(focus, row)]
            {
                let moved = app.row_up(focus, row);
                &&& moved.gateway.pending_gateway_switch == app.gateway.pending_gateway_switch
                &&& moved.gateway.gateways == app.gateway.gateways
                &&& moved.gateway.gateway_name == app.gateway.gateway_name
            },
{
}

/// In the list of providers each request has its own key: enter looks at the selected one, `d`
/// asks whether to delete it and `y` deletes it, and `c` and `u` open the modals that create and
/// update one, where providers can be changed.
pub proof fn lemma_provider_requests_have_their_keys(
    app: App,
    key: KeyEvent,
    context: KeyContext,
    post: App,
)
    requires
        app.key_step(key, context, post),
        app.reaches_panel(key),
        app.focus == Focus::Providers,
        app.provider.middle_pane_tab == MiddlePaneTab::Providers,
    ensures
        ({
            let some = app.provider.provider_count > 0;
            let editable = !app.provider.providers_v2_enabled;
            let asked = app.provider.confirm_provider_delete;
            &&& post.provider.pending_provider_get <==> app.provider.pending_provider_get || (!asked
                && key.code == KeyCode::Enter && some)
            &&& post.provider.pending_provider_delete <==> app.provider.pending_provider_delete || (
            asked && key.code == KeyCode::Char('y'))
            &&& asked ==> (post.provider.confirm_provider_delete <==> key.code
                != KeyCode::Char('y') && key.code != KeyCode::Char('n') && key.code != KeyCode::Esc)
            &&& !asked ==> (post.provider.confirm_provider_delete <==> key.code
                == KeyCode::Char('d') && some && editable)
            &&& post.provider.create_provider_form is Some <==> !asked && key.code
                == KeyCode::Char('c') && editable && !app.workspace.all_workspaces
            &&& post.provider.update_provider_form is Some <==> !asked && key.code
                == KeyCode::Char('u') && some && editable && app.provider.provider_selected
                < app.provider.provider_names@.len()
            &&& post.provider.pending_provider_create == app.provider.pending_provider_create
            &&& post.provider.pending_provider_update == app.provider.pending_provider_update
            &&& !asked && (key.code == KeyCode::Char('h') || key.code == KeyCode::Char('l')
                || key.code == KeyCode::Left || key.code == KeyCode::Right)
                ==> post.provider.middle_pane_tab == MiddlePaneTab::GlobalSettings
        }),
{
}

/// The selected sandbox is opened on its screen by enter in the list of sandboxes, where there is
/// one, and with no appraisal of another; `c` opens the modal that creates one, where one
/// workspace is shown; and `w` goes to the next workspace.
pub proof fn lemma_sandbox_requests_have_their_keys(
    app: App,
    key: KeyEvent,
    context: KeyContext,
    post: App,
)
    requires
        app.key_step(key, context, post),
        app.reaches_panel(key),
        app.focus == Focus::Sandboxes,
    ensures
        ({
            let opens = key.code == KeyCode::Enter && app.sandboxes.sandbox_count > 0;
            &&& opens ==> post.screen == Screen::Sandbox && post.focus == Focus::SandboxPolicy
                && post.policy.pending_sandbox_detail && !post.policy.confirm_delete
                && post.trust.sandbox_attestation is None && !post.trust.pending_sandbox_attestation
            &&& !opens ==> post.screen == app.screen && post.policy == app.policy && post.trust
                == app.trust
            &&& post.create.create_form is Some <==> key.code == KeyCode::Char('c')
                && !app.workspace.all_workspaces
            &&& post.workspace.pending_workspace_refresh <==> app.workspace.pending_workspace_refresh
                || key.code == KeyCode::Char('w')
            &&& key.code != KeyCode::Char('w') ==> post.workspace == app.workspace
            &&& post.policy.pending_sandbox_delete == app.policy.pending_sandbox_delete
            &&& post.create.pending_create_sandbox == app.create.pending_create_sandbox
        }),
{
}

/// The workspaces are gone through in their order, then all of them are shown together, and then
/// the default one again; the selections go back to the first row.
pub proof fn lemma_workspaces_go_round(app: App, post: App)
    requires
        app.cycles_workspace(post),
    ensures
        ({
            let names = app.workspace.workspace_names@;
            &&& app.workspace.all_workspaces ==> !post.workspace.all_workspaces
                && post.workspace.current_workspace@ == "default"@
            &&& !app.workspace.all_workspaces ==> forall|i: int|
                0 <= i < names.len() - 1 && (#[trigger] names[i])@
                    == app.workspace.current_workspace@ && (forall|j: int|
                    0 <= j < i ==> (#[trigger] names[j])@ != app.workspace.current_workspace@)
                    ==> !post.workspace.all_workspaces && post.workspace.current_workspace@
                    == names[i + 1]@
            &&& !app.workspace.all_workspaces && (forall|j: int|
                0 <= j < names.len() - 1 ==> (#[trigger] names[j])@
                    != app.workspace.current_workspace@) ==> post.workspace.all_workspaces
            &&& post.workspace.pending_workspace_refresh
            &&& post.sandboxes.sandbox_selected == 0
            &&& post.provider.provider_selected == 0
            &&& post.workspace.workspace_names == app.workspace.workspace_names
        }),
{
    let names = texts(app.workspace.workspace_names@);
    let current = app.workspace.current_workspace@;
    names.index_of_first_ensures(current);
    assert forall|i: int| 0 <= i < names.len() implies names[i]
        == (#[trigger] app.workspace.workspace_names@[i])@ by {}
    if !app.workspace.all_workspaces {
        assert forall|i: int|
            0 <= i < names.len() - 1 && (#[trigger] app.workspace.workspace_names@[i])@ == current
                && (forall|j: int|
                0 <= j < i ==> (#[trigger] app.workspace.workspace_names@[j])@ != current) implies !post.workspace.all_workspaces
            && post.workspace.current_workspace@ == app.workspace.workspace_names@[i + 1]@ by {
            assert(names[i] == current);
            assert(names.contains(current));
            let k = names.index_of_first(current)->0;
            if k < i {
                assert(app.workspace.workspace_names@[k]@ != current);
            }
            assert(k == i);
            assert(names[i + 1] == app.workspace.workspace_names@[i + 1]@);
        }
        if forall|j: int|
            0 <= j < names.len() - 1 ==> (#[trigger] app.workspace.workspace_names@[j])@ != current {
            if let Some(k) = names.index_of_first(current) {
                if k < names.len() - 1 {
                    assert(app.workspace.workspace_names@[k]@ != current);
                }
            }
        }
    }
}

/// The command line is opened by a colon on the dashboard, empty; characters go to its end;
/// escape and enter close it; and enter ends the interface where it holds `q` or `quit`.
pub proof fn lemma_command_line(app: App, key: KeyEvent, context: KeyContext, post: App)
    requires
        app.key_step(key, context, post),
    ensures
        app.reaches_panel(key) && key.code == KeyCode::Char(':') && (app.focus == Focus::Gateways
            || app.lists_providers() || app.lists_settings() || app.focus == Focus::Sandboxes)
            ==> post.input_mode == InputMode::Command && post.command_input@.len() == 0,
        app.input_mode == InputMode::Normal && post.input_mode == InputMode::Command ==> key.code
            == KeyCode::Char(':'),
        (App { input_mode: InputMode::Normal, ..app }).reaches_panel(key) && app.input_mode
            == InputMode::Command ==> {
            let command = trimmed(app.command_input@);
            &&& key.code matches KeyCode::Char(c) ==> post.command_input@
                == app.command_input@.push(c) && post.input_mode == InputMode::Command
            &&& key.code == KeyCode::Backspace && app.command_input@.len() > 0
                ==> post.command_input@ == app.command_input@.drop_last()
            &&& key.code == KeyCode::Esc || key.code == KeyCode::Enter ==> post.input_mode
                == InputMode::Normal && post.command_input@.len() == 0
            &&& key.code == KeyCode::Enter && (command == "q"@ || command == "quit"@)
                ==> !post.running
            &&& !(key.code == KeyCode::Enter && (command == "q"@ || command == "quit"@))
                ==> post.running == app.running
        },
{
}

/// `q` ends the interface from every panel, where no question and no detail is open.
pub proof fn lemma_q_ends_the_interface(app: App, key: KeyEvent, context: KeyContext, post: App)
    requires
        app.key_step(key, context, post),
        app.reaches_panel(key),
        key.code == KeyCode::Char('q'),
    ensures
        app.focus == Focus::Gateways || app.lists_providers() || app.lists_settings() || app.focus
            == Focus::Sandboxes ==> !post.running,
        app.focus == Focus::SandboxPolicy && !app.policy.confirm_delete ==> !post.running,
        app.focus == Focus::SandboxLogs && app.logs.log_detail_index is None ==> !post.running,
        app.focus == Focus::SandboxDraft && !app.draft.approve_all_confirm_open
            && !app.draft.draft_detail_open ==> !post.running,
{
}

/// A key that does not reach the panel in focus changes nothing of the sandbox screen.
proof fn lemma_sandbox_screen_is_kept(app: App, key: KeyEvent, context: KeyContext, post: App)
    requires
        app.key_step(key, context, post),
        !app.reaches_panel(key),
    ensures
        post.policy == app.policy,
        post.trust == app.trust,
        post.draft == app.draft,
{
}

/// A step through the rows of the dashboard changes the focus and the cursors alone.
proof fn lemma_rows_keep_panes(app: App, focus: Focus, row: usize)
    ensures
        forall|moved: App|
            moved == app.row_down(focus, row) || moved == app.row_up(focus, row)
                ==> #[trigger] keeps_requests(app, moved),
{
    assert forall|to: Focus, at: usize| keeps_requests(app, #[trigger] app.with_panel_row(to, at)) by {}
    assert forall|to: Focus, at: usize|
        keeps_requests(app, #[trigger] app.focused(to).with_panel_row(to, at)) by {}
}

/// Whether nothing is asked of a sandbox or a setting in `post` that was not in `app`.
pub open spec fn keeps_requests(app: App, post: App) -> bool {
    &&& post.policy.pending_sandbox_delete == app.policy.pending_sandbox_delete
    &&& post.policy.confirm_delete ==> app.policy.confirm_delete
    &&& post.policy.pending_shell_connect == app.policy.pending_shell_connect
    &&& post.trust.pending_sandbox_attestation ==> app.trust.pending_sandbox_attestation
    &&& post.draft == app.draft
    &&& keeps_settings(app, post)
}

/// Whether no setting is asked to be set or deleted in `post` that was not in `app`.
pub open spec fn keeps_settings(app: App, post: App) -> bool {
    &&& post.settings.pending_setting_set == app.settings.pending_setting_set
    &&& post.settings.pending_setting_delete == app.settings.pending_setting_delete
    &&& post.sandbox_settings.pending_sandbox_setting_set
        == app.sandbox_settings.pending_sandbox_setting_set
    &&& post.sandbox_settings.pending_sandbox_setting_delete
        == app.sandbox_settings.pending_sandbox_setting_delete
}

proof fn lemma_gateways_keep_requests(app: App, key: KeyEvent, post: App)
    requires
        app.gateways_step(key, post),
    ensures
        keeps_requests(app, post),
{
    lemma_rows_keep_panes(app, Focus::Gateways, app.gateway.gateway_selected);
}

proof fn lemma_providers_keep_requests(app: App, key: KeyEvent, context: KeyContext, post: App)
    requires
        app.providers_step(key, context, post),
    ensures
        keeps_requests(app, post),
{
    lemma_rows_keep_panes(app, Focus::Providers, app.provider.provider_selected);
}

proof fn lemma_global_settings_keep_requests(app: App, key: KeyEvent, post: App)
    requires
        app.global_settings_step(key, post),
    ensures
        keeps_requests(app, post),
{
    lemma_rows_keep_panes(app, Focus::Providers, app.settings.global_settings_selected);
}

proof fn lemma_sandboxes_keep_requests(app: App, key: KeyEvent, post: App)
    requires
        app.sandboxes_step(key, post),
    ensures
        keeps_requests(app, post),
{
    lemma_rows_keep_panes(app, Focus::Sandboxes, app.sandboxes.sandbox_selected);
}

/// A key on the dashboard asks nothing of a sandbox and of no setting.
proof fn lemma_dashboard_keeps_requests(app: App, key: KeyEvent, context: KeyContext, post: App)
    requires
        app.normal_step(key, context, post),
        app.focus == Focus::Gateways || app.focus == Focus::Providers || app.focus
            == Focus::Sandboxes,
    ensures
        keeps_requests(app, post),
{
    if app.focus == Focus::Gateways {
        lemma_gateways_keep_requests(app, key, post);
    } else if app.focus == Focus::Sandboxes {
        lemma_sandboxes_keep_requests(app, key, post);
    } else if app.provider.middle_pane_tab == MiddlePaneTab::GlobalSettings {
        lemma_global_settings_keep_requests(app, key, post);
    } else {
        lemma_providers_keep_requests(app, key, context, post);
    }
}

proof fn lemma_sandbox_screen_keeps_settings(app: App, key: KeyEvent, context: KeyContext, post: App)
    requires
        app.normal_step(key, context, post),
        app.focus == Focus::SandboxPolicy || app.focus == Focus::SandboxLogs || app.focus
            == Focus::SandboxDraft,
    ensures
        keeps_settings(app, post),
{
}

/// A key in the logs or among the proposed rules changes nothing else of the sandbox.
proof fn lemma_other_panes_keep_requests(app: App, key: KeyEvent, context: KeyContext, post: App)
    requires
        app.key_step(key, context, post),
        app.reaches_panel(key),
        app.focus == Focus::SandboxLogs || app.focus == Focus::SandboxDraft,
    ensures
        post.policy == app.policy,
        post.trust == app.trust,
        app.focus == Focus::SandboxLogs ==> post.draft == app.draft,
        post.draft.pending_draft_approve != app.draft.pending_draft_approve ==> key.code
            == KeyCode::Char('a'),
        post.draft.pending_draft_reject != app.draft.pending_draft_reject ==> key.code
            == KeyCode::Char('x'),
        post.draft.pending_draft_approve_all != app.draft.pending_draft_approve_all
            ==> app.draft.approve_all_confirm_open,
{
}

/// What is asked of a sandbox is asked on its screen: deletion by `y` once the question is open, a
/// shell by `s` in the policy tab, an appraisal by `r` in the trust tab, and decisions on rules in
/// their pane. Escape in a tab goes back to the dashboard, and the appraisal is dropped.
#[verifier::rlimit(50)]
pub proof fn lemma_sandbox_screen(app: App, key: KeyEvent, context: KeyContext, post: App)
    requires
        app.key_step(key, context, post),
    ensures
        ({
            let on = app.reaches_panel(key) && app.focus == Focus::SandboxPolicy;
            let asked = on && app.policy.confirm_delete;
            let tab = app.policy.sandbox_policy_tab;
            let policy = on && !asked && tab == SandboxPolicyTab::Policy;
            let trust = on && !asked && tab == SandboxPolicyTab::Trust;
            let drafts = app.reaches_panel(key) && app.focus == Focus::SandboxDraft;
            &&& post.policy.pending_sandbox_delete <==> app.policy.pending_sandbox_delete || (asked
                && key.code == KeyCode::Char('y'))
            &&& post.policy.confirm_delete && !app.policy.confirm_delete <==> policy && key.code
                == KeyCode::Char('d')
            &&& post.policy.pending_shell_connect <==> app.policy.pending_shell_connect || (policy
                && key.code == KeyCode::Char('s') && app.sandboxes.sandbox_count > 0)
            &&& post.trust.pending_sandbox_attestation && !app.trust.pending_sandbox_attestation
                ==> trust && key.code == KeyCode::Char('r')
            &&& trust && key.code == KeyCode::Char('r') && !app.trust.sandbox_attestation_loading
                ==> post.trust.pending_sandbox_attestation && post.status_text@
                == "requesting fresh sandbox appraisal..."@
            &&& post.draft.pending_draft_approve != app.draft.pending_draft_approve ==> drafts
                && key.code == KeyCode::Char('a')
            &&& post.draft.pending_draft_reject != app.draft.pending_draft_reject ==> drafts
                && key.code == KeyCode::Char('x')
            &&& post.draft.pending_draft_approve_all != app.draft.pending_draft_approve_all
                ==> drafts && app.draft.approve_all_confirm_open
            &&& on && !asked && key.code == KeyCode::Esc ==> post.screen == Screen::Dashboard
                && post.focus == Focus::Sandboxes && post.trust.sandbox_attestation is None
                && post.tasks.log_stream_handle is None
            &&& policy && key.code == KeyCode::Char('l') ==> post.focus == Focus::SandboxLogs
                && post.logs.pending_log_fetch && post.logs.sandbox_log_lines@.len() == 0
            &&& policy && key.code == KeyCode::Char('r') ==> post.focus == Focus::SandboxDraft
        }),
{
    if !app.reaches_panel(key) {
        lemma_sandbox_screen_is_kept(app, key, context, post);
    } else if app.focus == Focus::SandboxLogs || app.focus == Focus::SandboxDraft {
        lemma_other_panes_keep_requests(app, key, context, post);
    } else if app.focus != Focus::SandboxPolicy {
        lemma_dashboard_keeps_requests(app, key, context, post);
    }
}

/// A question that is open takes the key, and nothing but its own pane changes: the global
/// settings' before those of the sandbox, and these before the other modals.
#[verifier::rlimit(50)]
pub proof fn lemma_questions_go_first(app: App, key: KeyEvent, context: KeyContext, post: App)
    requires
        app.key_step(key, context, post),
        !(key.control && key.code == KeyCode::Char('c')),
        app.screen != Screen::Splash,
    ensures
        ({
            let yes = key.code == KeyCode::Char('y') || key.code == KeyCode::Enter;
            let set = app.settings.confirm_setting_set is Some;
            let delete = !set && app.settings.confirm_setting_delete is Some;
            let own_set = !set && !delete && app.sandbox_settings.sandbox_confirm_setting_set is Some;
            let own_delete = !set && !delete && !own_set
                && app.sandbox_settings.sandbox_confirm_setting_delete is Some;
            &&& post.settings.pending_setting_set <==> app.settings.pending_setting_set || (set
                && yes)
            &&& post.settings.pending_setting_delete <==> app.settings.pending_setting_delete || (
            delete && yes)
            &&& post.sandbox_settings.pending_sandbox_setting_set
                <==> app.sandbox_settings.pending_sandbox_setting_set || (own_set && yes)
            &&& post.sandbox_settings.pending_sandbox_setting_delete
                <==> app.sandbox_settings.pending_sandbox_setting_delete || (own_delete && yes)
            &&& set || delete ==> post == (App { settings: post.settings, ..app })
            &&& own_set || own_delete ==> post == (App {
                sandbox_settings: post.sandbox_settings,
                ..app
            })
        }),
{
    if !app.modal_open() && app.input_mode == InputMode::Normal {
        if app.focus == Focus::Gateways || app.focus == Focus::Providers || app.focus
            == Focus::Sandboxes {
            lemma_dashboard_keeps_requests(app, key, context, post);
        } else {
            lemma_sandbox_screen_keeps_settings(app, key, context, post);
        }
    }
}

/// A step down within a panel moves its cursor by one row; from its last row the focus goes to the
/// first row of the next panel that has rows, and a step up from the first row to the last row of
/// the panel before.
pub proof fn lemma_steps_cross_panels(app: App, key: KeyEvent, context: KeyContext, post: App)
    requires
        app.key_step(key, context, post),
        app.reaches_panel(key),
        app.lists_providers(),
    ensures
        ({
            let at = app.provider.provider_selected;
            let gateways = app.gateway.gateways@.len();
            let sandboxes = app.sandboxes.sandbox_count;
            let count = app.provider.provider_count;
            let down = key.code == KeyCode::Down || key.code == KeyCode::Char('j');
            let up = key.code == KeyCode::Up || key.code == KeyCode::Char('k');
            &&& down && at + 1 < count ==> post.focus == Focus::Providers
                && post.provider.provider_selected == at + 1
            &&& down && at + 1 >= count && sandboxes > 0 ==> post.focus == Focus::Sandboxes
                && post.sandboxes.sandbox_selected == 0 && post.provider.provider_selected == at
            &&& down && at + 1 >= count && sandboxes == 0 && gateways > 0 ==> post.focus
                == Focus::Gateways && post.gateway.gateway_selected == 0
            &&& up && at > 0 && count > 0 ==> post.focus == Focus::Providers
                && post.provider.provider_selected == at - 1
            &&& up && at == 0 && gateways > 0 ==> post.focus == Focus::Gateways
                && post.gateway.gateway_selected == gateways - 1 && post.provider.provider_selected
                == at
            &&& up && at == 0 && gateways == 0 && sandboxes > 0 ==> post.focus == Focus::Sandboxes
                && post.sandboxes.sandbox_selected == sandboxes - 1
        }),
{
    assert(app.gateway.gateways.len() == app.gateway.gateways@.len());
}

/// Like [`lemma_steps_cross_panels`], from the gateways and from the sandboxes.
pub proof fn lemma_steps_cross_from_the_ends(app: App, key: KeyEvent, context: KeyContext, post: App)
    requires
        app.key_step(key, context, post),
        app.reaches_panel(key),
        app.provider.middle_pane_tab == MiddlePaneTab::Providers,
    ensures
        ({
            let gateways = app.gateway.gateways@.len();
            let sandboxes = app.sandboxes.sandbox_count;
            let count = app.provider.provider_count;
            let down = key.code == KeyCode::Down || key.code == KeyCode::Char('j');
            let up = key.code == KeyCode::Up || key.code == KeyCode::Char('k');
            let g = app.gateway.gateway_selected;
            let s = app.sandboxes.sandbox_selected;
            &&& app.focus == Focus::Gateways && down && g + 1 < gateways ==> post.focus
                == Focus::Gateways && post.gateway.gateway_selected == g + 1
            &&& app.focus == Focus::Gateways && down && g + 1 >= gateways && count > 0
                ==> post.focus == Focus::Providers && post.provider.provider_selected == 0
            &&& app.focus == Focus::Gateways && up && g > 0 && gateways > 0 ==> post.focus
                == Focus::Gateways && post.gateway.gateway_selected == g - 1
            &&& app.focus == Focus::Gateways && up && g == 0 && sandboxes > 0 ==> post.focus
                == Focus::Sandboxes && post.sandboxes.sandbox_selected == sandboxes - 1
            &&& app.focus == Focus::Sandboxes && down && s + 1 < sandboxes ==> post.focus
                == Focus::Sandboxes && post.sandboxes.sandbox_selected == s + 1
            &&& app.focus == Focus::Sandboxes && down && s + 1 >= sandboxes && gateways > 0
                ==> post.focus == Focus::Gateways && post.gateway.gateway_selected == 0
            &&& app.focus == Focus::Sandboxes && up && s > 0 && sandboxes > 0 ==> post.focus
                == Focus::Sandboxes && post.sandboxes.sandbox_selected == s - 1
            &&& app.focus == Focus::Sandboxes && up && s == 0 && count > 0 ==> post.focus
                == Focus::Providers && post.provider.provider_selected == count - 1
        }),
{
    assert(app.gateway.gateways.len() == app.gateway.gateways@.len());
}

/// Nothing of one gateway is kept for another: neither its sandboxes, its providers and its
/// settings, nor the logs, the policy and the appraisal that were shown; and both background
/// tasks end.
pub proof fn lemma_another_gateway_starts_afresh(app: App, post: App)
    requires
        app.forgets_gateway(post),
    ensures
        post.sandboxes.sandbox_ids@.len() == 0,
        post.sandboxes.sandbox_names@.len() == 0,
        post.sandboxes.sandbox_count == 0,
        post.sandboxes.sandbox_selected == 0,
        post.provider.provider_names@.len() == 0,
        post.provider.provider_entries@.len() == 0,
        post.provider.provider_count == 0,
        !post.provider.providers_v2_enabled,
        !post.provider.confirm_provider_delete,
        post.settings.global_settings@.len() == 0,
        post.settings.global_settings_revision == 0,
        !post.settings.global_policy_active,
        !post.settings.global_settings_access_denied,
        !post.settings.global_policy_access_denied,
        post.logs.sandbox_log_lines@.len() == 0,
        post.logs.log_detail_index is None,
        post.policy.policy_lines@.len() == 0,
        post.policy.sandbox_policy is None,
        !post.policy.confirm_delete,
        post.trust.sandbox_attestation is None,
        !post.trust.sandbox_attestation_loading,
        post.trust.sandbox_attestation_request_id != app.trust.sandbox_attestation_request_id,
        post.tasks.anim_handle is None,
        post.tasks.log_stream_handle is None,
        app.tasks.anim_handle matches Some(task) ==> post.tasks.cancelled_tasks@.contains(task),
        app.tasks.log_stream_handle matches Some(task) ==> post.tasks.cancelled_tasks@.contains(
            task,
        ),
        app.screen == Screen::Sandbox ==> post.screen == Screen::Dashboard && post.focus
            == Focus::Sandboxes,
        app.screen != Screen::Sandbox ==> post.screen == app.screen && post.focus == app.focus,
        post.status_text@ == "connecting..."@,
{
    let before = app.tasks.cancelled_tasks@;
    let animated = aborted(before, app.tasks.anim_handle);
    if let Some(task) = app.tasks.anim_handle {
        assert(animated[before.len() as int] == task);
        let all = aborted(animated, app.tasks.log_stream_handle);
        assert(all[before.len() as int] == task);
    }
    if let Some(task) = app.tasks.log_stream_handle {
        let all = aborted(animated, app.tasks.log_stream_handle);
        assert(all[animated.len() as int] == task);
    }
}

} // verus!
