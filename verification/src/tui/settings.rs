//! The settings panes: global ones on the dashboard, those of a sandbox on its screen.

use vstd::prelude::*;
use crate::text;
use crate::text::{joined, signed_value, texts, trimmed};
use crate::text_map::TextMap;
use crate::tui::context::SettingCheck;
use crate::tui::keys::{handle_text_input, typed, types, KeyCode, KeyEvent};
use crate::tui::model::{
    bool_label, bool_text, display_setting_value, setting_text, GlobalSettingEntry,
    SandboxSettingEntry, SettingEditState, SettingScope, SettingValue, SettingValueKind,
};
use crate::tui::scroll::{less, min_of, minus, smaller};

verus! {

/// A setting that the gateway knows.
#[derive(Debug)]
pub struct RegisteredSetting {
    pub key: String,
    pub kind: SettingValueKind,
}

/// What the gateway says of a sandbox's setting.
#[derive(Debug)]
pub struct EffectiveSetting {
    pub value: Option<SettingValue>,
    /// 1 where the value was set for the sandbox, 2 where it was set globally.
    pub scope: i32,
}

/// Whether two values are the same.
pub open spec fn same_value(a: Option<SettingValue>, b: Option<SettingValue>) -> bool {
    match (a, b) {
        (None, None) => true,
        (Some(SettingValue::StringValue(x)), Some(SettingValue::StringValue(y))) => x@ == y@,
        (Some(SettingValue::BoolValue(x)), Some(SettingValue::BoolValue(y))) => x == y,
        (Some(SettingValue::IntValue(x)), Some(SettingValue::IntValue(y))) => x == y,
        (Some(SettingValue::BytesValue(x)), Some(SettingValue::BytesValue(y))) => x@ == y@,
        _ => false,
    }
}

fn copy_value(value: &Option<SettingValue>) -> (copy: Option<SettingValue>)
    ensures
        same_value(copy, *value),
{
    match value {
        None => None,
        Some(SettingValue::StringValue(v)) => Some(SettingValue::StringValue(v.clone())),
        Some(SettingValue::BoolValue(v)) => Some(SettingValue::BoolValue(*v)),
        Some(SettingValue::IntValue(v)) => Some(SettingValue::IntValue(*v)),
        Some(SettingValue::BytesValue(v)) => {
            let bytes: Vec<u8> = v.clone();
            assert(bytes@ =~= v@);
            Some(SettingValue::BytesValue(bytes))
        },
    }
}

/// The value that `found` has for `key`.
pub open spec fn value_for(found: Map<Seq<char>, Option<SettingValue>>, key: Seq<char>) -> Option<SettingValue> {
    if found.dom().contains(key) {
        found[key]
    } else {
        None
    }
}

/// Whether `entries` holds the registered settings, in order, with the values found.
pub open spec fn lists_global(
    registered: Seq<RegisteredSetting>,
    found: Map<Seq<char>, Option<SettingValue>>,
    entries: Seq<GlobalSettingEntry>,
) -> bool {
    &&& entries.len() == registered.len()
    &&& forall|i: int|
        0 <= i < entries.len() ==> {
            let entry = #[trigger] entries[i];
            &&& entry.key@ == registered[i].key@
            &&& entry.kind == registered[i].kind
            &&& same_value(entry.value, value_for(found, registered[i].key@))
        }
}

/// The scope that a number stands for.
pub open spec fn scope_of(number: i32) -> SettingScope {
    if number == 1 {
        SettingScope::Sandbox
    } else if number == 2 {
        SettingScope::Global
    } else {
        SettingScope::Unset
    }
}

/// Whether `entries` holds the registered settings, in order, with the values and scopes found.
pub open spec fn lists_effective(
    registered: Seq<RegisteredSetting>,
    found: Map<Seq<char>, EffectiveSetting>,
    entries: Seq<SandboxSettingEntry>,
) -> bool {
    &&& entries.len() == registered.len()
    &&& forall|i: int|
        0 <= i < entries.len() ==> {
            let entry = #[trigger] entries[i];
            let key = registered[i].key@;
            &&& entry.key@ == key
            &&& entry.kind == registered[i].kind
            &&& if found.dom().contains(key) {
                same_value(entry.value, found[key].value) && entry.scope == scope_of(
                    found[key].scope,
                )
            } else {
                entry.value is None && entry.scope == SettingScope::Unset
            }
        }
}

/// `selected` moved back onto the last of `len` entries, where it points past them.
pub open spec fn clamped(selected: usize, len: nat) -> usize {
    if selected >= len && len > 0 {
        (len - 1) as usize
    } else {
        selected
    }
}

/// The other truth value, or true where the value is none.
pub open spec fn toggled(value: Option<SettingValue>) -> bool {
    match value {
        Some(SettingValue::BoolValue(v)) => !v,
        _ => true,
    }
}

/// The text with which editing of a value begins.
pub open spec fn edit_text(kind: SettingValueKind, value: Option<SettingValue>) -> Seq<char> {
    if kind == SettingValueKind::Bool {
        bool_text(toggled(value))
    } else if setting_text(value) == "<unset>"@ {
        Seq::empty()
    } else {
        setting_text(value)
    }
}

/// Whether `edit` begins editing the value at `index`.
pub open spec fn begins_edit(
    edit: Option<SettingEditState>,
    index: usize,
    kind: SettingValueKind,
    value: Option<SettingValue>,
) -> bool {
    edit matches Some(e) && {
        &&& e.index == index
        &&& e.input@ == edit_text(kind, value)
        &&& e.error is None
    }
}

fn begin_edit(index: usize, kind: SettingValueKind, value: &Option<SettingValue>) -> (edit:
    SettingEditState)
    ensures
        begins_edit(Some(edit), index, kind, *value),
{
    let input = if kind == SettingValueKind::Bool {
        let flipped = match value {
            Some(SettingValue::BoolValue(v)) => !*v,
            _ => true,
        };
        bool_label(flipped)
    } else {
        let current = display_setting_value(value);
        if text::same(current.as_str(), "<unset>") {
            String::new()
        } else {
            current
        }
    };
    SettingEditState { index, input, error: None }
}

/// Where a key pressed in the editor leads.
#[derive(Debug, Clone, Copy, PartialEq, Eq, Structural)]
pub enum EditOutcome {
    Stay,
    Close,
    Confirm,
}

/// Whether a text reads as an integer of 64 bits.
pub open spec fn reads_as_integer(s: Seq<char>) -> bool {
    signed_value(s) matches Some(v) && i64::MIN <= v <= i64::MAX
}

/// Why a setting of kind `kind` cannot take the text `input`, where it cannot.
pub open spec fn refusal(
    kind: Option<SettingValueKind>,
    input: Seq<char>,
    check: SettingCheck,
) -> Option<Seq<char>> {
    match kind {
        None => None,
        Some(SettingValueKind::Int) => if reads_as_integer(trimmed(input)) {
            None
        } else {
            Some("expected integer"@)
        },
        Some(SettingValueKind::Bool) => if check.bool_like {
            None
        } else {
            Some("expected true/false/yes/no/1/0"@)
        },
        Some(SettingValueKind::String) => match check.allowed {
            Some(allowed) => Some("expected one of: "@ + joined(texts(allowed@), ", "@)),
            None => None,
        },
    }
}

fn refuse(kind: Option<SettingValueKind>, input: &str, check: &SettingCheck) -> (reason: Option<String>)
    ensures
        reason is Some <==> refusal(kind, input@, *check) is Some,
        reason matches Some(r) ==> Some(r@) == refusal(kind, input@, *check),
{
    match kind {
        None => None,
        Some(SettingValueKind::Int) => {
            let raw = text::trim(input);
            if text::parse_i64(raw).is_some() {
                None
            } else {
                Some("expected integer".to_string())
            }
        },
        Some(SettingValueKind::Bool) => if check.bool_like {
            None
        } else {
            Some("expected true/false/yes/no/1/0".to_string())
        },
        Some(SettingValueKind::String) => match &check.allowed {
            Some(allowed) => {
                let mut reason = "expected one of: ".to_string();
                reason.append(text::join(allowed, ", ").as_str());
                Some(reason)
            },
            None => None,
        },
    }
}

impl SettingEditState {
    /// Where `key` leads from the editor of a setting of kind `kind`.
    pub open spec fn outcome(
        self,
        key: KeyEvent,
        kind: Option<SettingValueKind>,
        check: SettingCheck,
    ) -> EditOutcome {
        match key.code {
            KeyCode::Esc => EditOutcome::Close,
            KeyCode::Enter => if refusal(kind, self.input@, check) is None {
                EditOutcome::Confirm
            } else {
                EditOutcome::Stay
            },
            _ => EditOutcome::Stay,
        }
    }

    /// What `key` makes of the editor.
    pub open spec fn key_step(
        self,
        key: KeyEvent,
        kind: Option<SettingValueKind>,
        check: SettingCheck,
        post: Self,
    ) -> bool {
        if key.code == KeyCode::Enter {
            &&& post == (SettingEditState { error: post.error, ..self })
            &&& match refusal(kind, self.input@, check) {
                Some(reason) => post.error matches Some(e) && e@ == reason,
                None => post.error is None,
            }
        } else if types(key.code) {
            &&& post == (SettingEditState { input: post.input, error: None, ..self })
            &&& post.input@ == typed(self.input@, key.code)
        } else {
            post == self
        }
    }

    /// Handles a key pressed in the editor of a setting of kind `kind`.
    pub fn handle_key(
        &mut self,
        key: KeyEvent,
        kind: Option<SettingValueKind>,
        check: &SettingCheck,
    ) -> (outcome: EditOutcome)
        ensures
            outcome == old(self).outcome(key, kind, *check),
            old(self).key_step(key, kind, *check, *final(self)),
    {
        match key.code {
            KeyCode::Esc => EditOutcome::Close,
            KeyCode::Enter => {
                self.error = refuse(kind, self.input.as_str(), check);
                if self.error.is_some() {
                    EditOutcome::Stay
                } else {
                    EditOutcome::Confirm
                }
            },
            KeyCode::Backspace | KeyCode::Char(_) => {
                handle_text_input(&mut self.input, key);
                self.error = None;
                EditOutcome::Stay
            },
            _ => EditOutcome::Stay,
        }
    }
}

/// The global settings, with the global policy's state.
pub struct GlobalSettingsPane {
    pub global_policy_active: bool,
    pub global_policy_version: u32,
    /// Stops retrying a platform-only policy probe after an expected denial.
    pub global_policy_access_denied: bool,
    pub global_settings: Vec<GlobalSettingEntry>,
    pub global_settings_selected: usize,
    pub global_settings_revision: u64,
    /// Stops retrying platform-only settings after an expected denial.
    pub global_settings_access_denied: bool,
    pub setting_edit: Option<SettingEditState>,
    pub confirm_setting_set: Option<usize>,
    pub confirm_setting_delete: Option<usize>,
    pub pending_setting_set: bool,
    pub pending_setting_delete: bool,
}

impl GlobalSettingsPane {
    /// Whether the pane is as it starts.
    pub open spec fn fresh(self) -> bool {
        &&& self.global_settings@.len() == 0
        &&& self == (GlobalSettingsPane {
            global_policy_active: false,
            global_policy_version: 0,
            global_policy_access_denied: false,
            global_settings: self.global_settings,
            global_settings_selected: 0,
            global_settings_revision: 0,
            global_settings_access_denied: false,
            setting_edit: None,
            confirm_setting_set: None,
            confirm_setting_delete: None,
            pending_setting_set: false,
            pending_setting_delete: false,
        })
    }

    /// A pane without settings.
    pub fn new() -> (pane: Self)
        ensures
            pane.fresh(),
    {
        GlobalSettingsPane {
            global_policy_active: false,
            global_policy_version: 0,
            global_policy_access_denied: false,
            global_settings: Vec::new(),
            global_settings_selected: 0,
            global_settings_revision: 0,
            global_settings_access_denied: false,
            setting_edit: None,
            confirm_setting_set: None,
            confirm_setting_delete: None,
            pending_setting_set: false,
            pending_setting_delete: false,
        }
    }

    /// Takes over the settings that the gateway sent.
    pub fn apply_global_settings(
        &mut self,
        registered: &Vec<RegisteredSetting>,
        settings: &TextMap<Option<SettingValue>>,
        revision: u64,
    )
        ensures
            lists_global(registered@, settings@, final(self).global_settings@),
            *final(self) == (GlobalSettingsPane {
                global_settings_revision: revision,
                global_settings_access_denied: false,
                global_settings: final(self).global_settings,
                global_settings_selected: clamped(
                    old(self).global_settings_selected,
                    registered@.len(),
                ),
                ..*old(self)
            }),
    {
        self.global_settings_revision = revision;
        self.global_settings_access_denied = false;
        let mut entries: Vec<GlobalSettingEntry> = Vec::new();
        let n: usize = registered.len();
        let mut i: usize = 0;
        while i < n
            invariant
                i <= n,
                n == registered@.len(),
                lists_global(registered@.take(i as int), settings@, entries@),
            decreases n - i,
        {
            let reg = &registered[i];
            let value = match settings.get(reg.key.as_str()) {
                Some(value) => copy_value(value),
                None => None,
            };
            entries.push(GlobalSettingEntry { key: reg.key.clone(), kind: reg.kind, value });
            i = i + 1;
        }
        assert(registered@.take(n as int) =~= registered@);
        self.global_settings = entries;
        if self.global_settings_selected >= n && n > 0 {
            self.global_settings_selected = n - 1;
        }
    }

    /// Whether `post` is `self` once the gateway has denied access to the settings.
    pub open spec fn denies_settings(self, post: Self) -> bool {
        &&& post.global_settings@.len() == 0
        &&& post == (GlobalSettingsPane {
            global_settings_access_denied: true,
            global_settings: post.global_settings,
            global_settings_selected: 0,
            global_settings_revision: 0,
            setting_edit: None,
            confirm_setting_set: None,
            confirm_setting_delete: None,
            ..self
        })
    }

    /// Whether `post` is `self` once the gateway has denied access to the global policy.
    pub open spec fn denies_policy(self, post: Self) -> bool {
        post == (GlobalSettingsPane {
            global_policy_access_denied: true,
            global_policy_active: false,
            global_policy_version: 0,
            ..self
        })
    }

    /// Clears the settings once the gateway has denied access to them.
    pub fn deny_global_settings_access(&mut self)
        ensures
            old(self).denies_settings(*final(self)),
    {
        self.global_settings_access_denied = true;
        self.global_settings.clear();
        self.global_settings_selected = 0;
        self.global_settings_revision = 0;
        self.setting_edit = None;
        self.confirm_setting_set = None;
        self.confirm_setting_delete = None;
    }

    /// Clears the global policy's state once the gateway has denied access to it.
    pub fn deny_global_policy_access(&mut self)
        ensures
            old(self).denies_policy(*final(self)),
    {
        self.global_policy_access_denied = true;
        self.global_policy_active = false;
        self.global_policy_version = 0;
    }

    /// Whether `post` is `self` as it is before another gateway has answered.
    pub open spec fn forgets_gateway(self, post: Self) -> bool {
        &&& post.global_settings@.len() == 0
        &&& post == (GlobalSettingsPane {
            global_settings_access_denied: false,
            global_settings: post.global_settings,
            global_settings_selected: 0,
            global_settings_revision: 0,
            global_policy_access_denied: false,
            global_policy_active: false,
            global_policy_version: 0,
            ..self
        })
    }

    /// Drops what the gateway said, so that nothing privileged is kept for another one.
    pub fn forget_gateway(&mut self)
        ensures
            old(self).forgets_gateway(*final(self)),
    {
        self.global_settings_access_denied = false;
        self.global_settings.clear();
        self.global_settings_selected = 0;
        self.global_settings_revision = 0;
        self.global_policy_access_denied = false;
        self.global_policy_active = false;
        self.global_policy_version = 0;
    }

    /// The kind of the setting at `index`.
    pub open spec fn kind_at(self, index: usize) -> Option<SettingValueKind> {
        if index < self.global_settings@.len() {
            Some(self.global_settings@[index as int].kind)
        } else {
            None
        }
    }

    /// What editing the selected setting makes of the pane.
    pub open spec fn edit_step(self, post: Self) -> bool {
        let at = self.global_settings_selected;
        if at < self.global_settings@.len() {
            let entry = self.global_settings@[at as int];
            &&& begins_edit(post.setting_edit, at, entry.kind, entry.value)
            &&& post == (GlobalSettingsPane {
                setting_edit: post.setting_edit,
                confirm_setting_set: if entry.kind == SettingValueKind::Bool {
                    Some(at)
                } else {
                    self.confirm_setting_set
                },
                ..self
            })
        } else {
            post == self
        }
    }

    /// Begins editing the selected setting; a truth value goes straight to the confirmation.
    pub fn edit_selected(&mut self)
        ensures
            old(self).edit_step(*final(self)),
    {
        let at: usize = self.global_settings_selected;
        if at < self.global_settings.len() {
            let entry = &self.global_settings[at];
            let kind = entry.kind;
            let edit = begin_edit(at, kind, &entry.value);
            self.setting_edit = Some(edit);
            if kind == SettingValueKind::Bool {
                self.confirm_setting_set = Some(at);
            }
        }
    }

    /// The pane once the selected setting is to be deleted, where it has a value.
    pub open spec fn asking_delete(self) -> Self {
        let at = self.global_settings_selected;
        if at < self.global_settings@.len() && self.global_settings@[at as int].value is Some {
            GlobalSettingsPane { confirm_setting_delete: Some(at), ..self }
        } else {
            self
        }
    }

    /// Asks whether to delete the selected setting, where it has a value.
    pub fn ask_delete(&mut self)
        ensures
            *final(self) == old(self).asking_delete(),
    {
        let at: usize = self.global_settings_selected;
        if at < self.global_settings.len() && self.global_settings[at].value.is_some() {
            self.confirm_setting_delete = Some(at);
        }
    }

    /// What `key` makes of the pane while the editor is open.
    pub open spec fn editor_step(self, key: KeyEvent, check: SettingCheck, post: Self) -> bool {
        match self.setting_edit {
            None => post == self,
            Some(edit) => {
                let kind = self.kind_at(edit.index);
                match edit.outcome(key, kind, check) {
                    EditOutcome::Close => post == (GlobalSettingsPane {
                        setting_edit: None,
                        ..self
                    }),
                    outcome => {
                        &&& post == (GlobalSettingsPane {
                            setting_edit: post.setting_edit,
                            confirm_setting_set: if outcome == EditOutcome::Confirm {
                                Some(edit.index)
                            } else {
                                self.confirm_setting_set
                            },
                            ..self
                        })
                        &&& post.setting_edit matches Some(e) && edit.key_step(key, kind, check, e)
                    },
                }
            },
        }
    }

    /// Handles a key pressed while the editor is open.
    pub fn handle_setting_edit_key(&mut self, key: KeyEvent, check: &SettingCheck)
        ensures
            old(self).editor_step(key, *check, *final(self)),
    {
        let mut held: Option<SettingEditState> = None;
        std::mem::swap(&mut held, &mut self.setting_edit);
        if let Some(mut edit) = held {
            let kind = if edit.index < self.global_settings.len() {
                Some(self.global_settings[edit.index].kind)
            } else {
                None
            };
            match edit.handle_key(key, kind, check) {
                EditOutcome::Close => {},
                EditOutcome::Stay => {
                    self.setting_edit = Some(edit);
                },
                EditOutcome::Confirm => {
                    self.confirm_setting_set = Some(edit.index);
                    self.setting_edit = Some(edit);
                },
            }
        }
    }

    /// The pane after the answer to whether to set the setting.
    pub open spec fn after_confirm_set(self, key: KeyEvent) -> Self {
        match key.code {
            KeyCode::Char('y') | KeyCode::Enter => GlobalSettingsPane {
                pending_setting_set: true,
                confirm_setting_set: None,
                ..self
            },
            KeyCode::Esc | KeyCode::Char('n') => GlobalSettingsPane {
                confirm_setting_set: None,
                setting_edit: None,
                ..self
            },
            _ => self,
        }
    }

    /// Handles the answer to whether to set the setting.
    pub fn handle_setting_confirm_set_key(&mut self, key: KeyEvent)
        ensures
            *final(self) == old(self).after_confirm_set(key),
    {
        match key.code {
            KeyCode::Char('y') | KeyCode::Enter => {
                self.pending_setting_set = true;
                self.confirm_setting_set = None;
            },
            KeyCode::Esc | KeyCode::Char('n') => {
                self.confirm_setting_set = None;
                self.setting_edit = None;
            },
            _ => {},
        }
    }

    /// The pane after the answer to whether to delete the setting.
    pub open spec fn after_confirm_delete(self, key: KeyEvent) -> Self {
        match key.code {
            KeyCode::Char('y') | KeyCode::Enter => GlobalSettingsPane {
                pending_setting_delete: true,
                confirm_setting_delete: None,
                ..self
            },
            KeyCode::Esc | KeyCode::Char('n') => GlobalSettingsPane {
                confirm_setting_delete: None,
                ..self
            },
            _ => self,
        }
    }

    /// Handles the answer to whether to delete the setting.
    pub fn handle_setting_confirm_delete_key(&mut self, key: KeyEvent)
        ensures
            *final(self) == old(self).after_confirm_delete(key),
    {
        match key.code {
            KeyCode::Char('y') | KeyCode::Enter => {
                self.pending_setting_delete = true;
                self.confirm_setting_delete = None;
            },
            KeyCode::Esc | KeyCode::Char('n') => {
                self.confirm_setting_delete = None;
            },
            _ => {},
        }
    }
}

/// The settings of a sandbox.
pub struct SandboxSettingsPane {
    pub sandbox_settings: Vec<SandboxSettingEntry>,
    pub sandbox_settings_selected: usize,
    pub sandbox_setting_edit: Option<SettingEditState>,
    pub sandbox_confirm_setting_set: Option<usize>,
    pub sandbox_confirm_setting_delete: Option<usize>,
    pub pending_sandbox_setting_set: bool,
    pub pending_sandbox_setting_delete: bool,
}

/// Where a key pressed in the settings of a sandbox leads.
#[derive(Debug, Clone, Copy, PartialEq, Eq, Structural)]
pub enum SettingsOutcome {
    Stay,
    Quit,
    Leave,
    NextTab,
    /// The selected setting is managed globally, so it cannot be changed here.
    ManagedGlobally,
}

impl SandboxSettingsPane {
    /// The selection can be moved on.
    pub open spec fn wf(self) -> bool {
        self.sandbox_settings_selected < usize::MAX
    }

    /// Whether the pane is as it starts.
    pub open spec fn fresh(self) -> bool {
        &&& self.sandbox_settings@.len() == 0
        &&& self == (SandboxSettingsPane {
            sandbox_settings: self.sandbox_settings,
            sandbox_settings_selected: 0,
            sandbox_setting_edit: None,
            sandbox_confirm_setting_set: None,
            sandbox_confirm_setting_delete: None,
            pending_sandbox_setting_set: false,
            pending_sandbox_setting_delete: false,
        })
    }

    /// A pane without settings.
    pub fn new() -> (pane: Self)
        ensures
            pane.fresh(),
            pane.wf(),
    {
        SandboxSettingsPane {
            sandbox_settings: Vec::new(),
            sandbox_settings_selected: 0,
            sandbox_setting_edit: None,
            sandbox_confirm_setting_set: None,
            sandbox_confirm_setting_delete: None,
            pending_sandbox_setting_set: false,
            pending_sandbox_setting_delete: false,
        }
    }

    /// Takes over the settings that the gateway sent.
    pub fn apply_sandbox_settings(
        &mut self,
        registered: &Vec<RegisteredSetting>,
        settings: &TextMap<EffectiveSetting>,
    )
        ensures
            lists_effective(registered@, settings@, final(self).sandbox_settings@),
            *final(self) == (SandboxSettingsPane {
                sandbox_settings: final(self).sandbox_settings,
                sandbox_settings_selected: clamped(
                    old(self).sandbox_settings_selected,
                    registered@.len(),
                ),
                ..*old(self)
            }),
            old(self).wf() ==> final(self).wf(),
    {
        let mut entries: Vec<SandboxSettingEntry> = Vec::new();
        let n: usize = registered.len();
        let mut i: usize = 0;
        while i < n
            invariant
                i <= n,
                n == registered@.len(),
                lists_effective(registered@.take(i as int), settings@, entries@),
            decreases n - i,
        {
            let reg = &registered[i];
            let (value, scope): (Option<SettingValue>, SettingScope) = match settings.get(
                reg.key.as_str(),
            ) {
                Some(effective) => {
                    let scope = match effective.scope {
                        1 => SettingScope::Sandbox,
                        2 => SettingScope::Global,
                        _ => SettingScope::Unset,
                    };
                    (copy_value(&effective.value), scope)
                },
                None => (None, SettingScope::Unset),
            };
            entries.push(
                SandboxSettingEntry { key: reg.key.clone(), kind: reg.kind, value, scope },
            );
            i = i + 1;
        }
        assert(registered@.take(n as int) =~= registered@);
        self.sandbox_settings = entries;
        if self.sandbox_settings_selected >= n && n > 0 {
            self.sandbox_settings_selected = n - 1;
        }
    }

    /// The kind of the setting at `index`.
    pub open spec fn kind_at(self, index: usize) -> Option<SettingValueKind> {
        if index < self.sandbox_settings@.len() {
            Some(self.sandbox_settings@[index as int].kind)
        } else {
            None
        }
    }

    /// Whether the selected setting is there and managed globally.
    pub open spec fn managed(self) -> bool {
        let at = self.sandbox_settings_selected;
        at < self.sandbox_settings@.len() && self.sandbox_settings@[at as int].scope
            == SettingScope::Global
    }

    /// Where `key` leads from the pane.
    pub open spec fn outcome(self, key: KeyEvent) -> SettingsOutcome {
        match key.code {
            KeyCode::Char('q') => SettingsOutcome::Quit,
            KeyCode::Esc => SettingsOutcome::Leave,
            KeyCode::Char('h')
            | KeyCode::Char('l')
            | KeyCode::Left
            | KeyCode::Right => SettingsOutcome::NextTab,
            KeyCode::Enter | KeyCode::Char('d') => if self.managed() {
                SettingsOutcome::ManagedGlobally
            } else {
                SettingsOutcome::Stay
            },
            _ => SettingsOutcome::Stay,
        }
    }

    /// What `key` makes of the pane.
    pub open spec fn key_step(self, key: KeyEvent, post: Self) -> bool {
        let at = self.sandbox_settings_selected;
        let len = self.sandbox_settings@.len() as int;
        match key.code {
            KeyCode::Char('j') | KeyCode::Down => post == (SandboxSettingsPane {
                sandbox_settings_selected: if len > 0 {
                    smaller(at + 1, len - 1) as usize
                } else {
                    at
                },
                ..self
            }),
            KeyCode::Char('k') | KeyCode::Up => post == (SandboxSettingsPane {
                sandbox_settings_selected: less(at as int, 1) as usize,
                ..self
            }),
            KeyCode::Enter => if at < len && !self.managed() {
                let entry = self.sandbox_settings@[at as int];
                &&& begins_edit(post.sandbox_setting_edit, at, entry.kind, entry.value)
                &&& post == (SandboxSettingsPane {
                    sandbox_setting_edit: post.sandbox_setting_edit,
                    sandbox_confirm_setting_set: if entry.kind == SettingValueKind::Bool {
                        Some(at)
                    } else {
                        self.sandbox_confirm_setting_set
                    },
                    ..self
                })
            } else {
                post == self
            },
            KeyCode::Char('d') => post == (SandboxSettingsPane {
                sandbox_confirm_setting_delete: if at < len && !self.managed()
                    && self.sandbox_settings@[at as int].value is Some {
                    Some(at)
                } else {
                    self.sandbox_confirm_setting_delete
                },
                ..self
            }),
            _ => post == self,
        }
    }

    /// Handles a key pressed in the pane.
    pub fn handle_key(&mut self, key: KeyEvent) -> (outcome: SettingsOutcome)
        requires
            old(self).wf(),
        ensures
            outcome == old(self).outcome(key),
            old(self).key_step(key, *final(self)),
            final(self).wf(),
    {
        let at: usize = self.sandbox_settings_selected;
        let len: usize = self.sandbox_settings.len();
        match key.code {
            KeyCode::Char('q') => SettingsOutcome::Quit,
            KeyCode::Esc => SettingsOutcome::Leave,
            KeyCode::Char('h')
            | KeyCode::Char('l')
            | KeyCode::Left
            | KeyCode::Right => SettingsOutcome::NextTab,
            KeyCode::Char('j') | KeyCode::Down => {
                if len > 0 {
                    self.sandbox_settings_selected = min_of(at + 1, len - 1);
                }
                SettingsOutcome::Stay
            },
            KeyCode::Char('k') | KeyCode::Up => {
                self.sandbox_settings_selected = minus(at, 1);
                SettingsOutcome::Stay
            },
            KeyCode::Enter => {
                if at < len {
                    let entry = &self.sandbox_settings[at];
                    if entry.is_globally_managed() {
                        return SettingsOutcome::ManagedGlobally;
                    }
                    let kind = entry.kind;
                    let edit = begin_edit(at, kind, &entry.value);
                    self.sandbox_setting_edit = Some(edit);
                    if kind == SettingValueKind::Bool {
                        self.sandbox_confirm_setting_set = Some(at);
                    }
                }
                SettingsOutcome::Stay
            },
            KeyCode::Char('d') => {
                if at < len {
                    let entry = &self.sandbox_settings[at];
                    if entry.is_globally_managed() {
                        return SettingsOutcome::ManagedGlobally;
                    }
                    if entry.value.is_some() {
                        self.sandbox_confirm_setting_delete = Some(at);
                    }
                }
                SettingsOutcome::Stay
            },
            _ => SettingsOutcome::Stay,
        }
    }

    /// What `key` makes of the pane while the editor is open.
    pub open spec fn editor_step(self, key: KeyEvent, check: SettingCheck, post: Self) -> bool {
        match self.sandbox_setting_edit {
            None => post == self,
            Some(edit) => {
                let kind = self.kind_at(edit.index);
                match edit.outcome(key, kind, check) {
                    EditOutcome::Close => post == (SandboxSettingsPane {
                        sandbox_setting_edit: None,
                        ..self
                    }),
                    outcome => {
                        &&& post == (SandboxSettingsPane {
                            sandbox_setting_edit: post.sandbox_setting_edit,
                            sandbox_confirm_setting_set: if outcome == EditOutcome::Confirm {
                                Some(edit.index)
                            } else {
                                self.sandbox_confirm_setting_set
                            },
                            ..self
                        })
                        &&& post.sandbox_setting_edit matches Some(e) && edit.key_step(
                            key,
                            kind,
                            check,
                            e,
                        )
                    },
                }
            },
        }
    }

    /// Handles a key pressed while the editor is open.
    pub fn handle_sandbox_setting_edit_key(&mut self, key: KeyEvent, check: &SettingCheck)
        ensures
            old(self).editor_step(key, *check, *final(self)),
    {
        let mut held: Option<SettingEditState> = None;
        std::mem::swap(&mut held, &mut self.sandbox_setting_edit);
        if let Some(mut edit) = held {
            let kind = if edit.index < self.sandbox_settings.len() {
                Some(self.sandbox_settings[edit.index].kind)
            } else {
                None
            };
            match edit.handle_key(key, kind, check) {
                EditOutcome::Close => {},
                EditOutcome::Stay => {
                    self.sandbox_setting_edit = Some(edit);
                },
                EditOutcome::Confirm => {
                    self.sandbox_confirm_setting_set = Some(edit.index);
                    self.sandbox_setting_edit = Some(edit);
                },
            }
        }
    }

    /// The pane after the answer to whether to set the setting.
    pub open spec fn after_confirm_set(self, key: KeyEvent) -> Self {
        match key.code {
            KeyCode::Char('y') | KeyCode::Enter => SandboxSettingsPane {
                pending_sandbox_setting_set: true,
                sandbox_confirm_setting_set: None,
                ..self
            },
            KeyCode::Esc | KeyCode::Char('n') => SandboxSettingsPane {
                sandbox_confirm_setting_set: None,
                sandbox_setting_edit: None,
                ..self
            },
            _ => self,
        }
    }

    /// Handles the answer to whether to set the setting.
    pub fn handle_sandbox_setting_confirm_set_key(&mut self, key: KeyEvent)
        ensures
            *final(self) == old(self).after_confirm_set(key),
    {
        match key.code {
            KeyCode::Char('y') | KeyCode::Enter => {
                self.pending_sandbox_setting_set = true;
                self.sandbox_confirm_setting_set = None;
            },
            KeyCode::Esc | KeyCode::Char('n') => {
                self.sandbox_confirm_setting_set = None;
                self.sandbox_setting_edit = None;
            },
            _ => {},
        }
    }

    /// The pane after the answer to whether to delete the setting.
    pub open spec fn after_confirm_delete(self, key: KeyEvent) -> Self {
        match key.code {
            KeyCode::Char('y') | KeyCode::Enter => SandboxSettingsPane {
                pending_sandbox_setting_delete: true,
                sandbox_confirm_setting_delete: None,
                ..self
            },
            KeyCode::Esc | KeyCode::Char('n') => SandboxSettingsPane {
                sandbox_confirm_setting_delete: None,
                ..self
            },
            _ => self,
        }
    }

    /// Handles the answer to whether to delete the setting.
    pub fn handle_sandbox_setting_confirm_delete_key(&mut self, key: KeyEvent)
        ensures
            *final(self) == old(self).after_confirm_delete(key),
    {
        match key.code {
            KeyCode::Char('y') | KeyCode::Enter => {
                self.pending_sandbox_setting_delete = true;
                self.sandbox_confirm_setting_delete = None;
            },
            KeyCode::Esc | KeyCode::Char('n') => {
                self.sandbox_confirm_setting_delete = None;
            },
            _ => {},
        }
    }
}

/// A setting that is managed globally is neither edited nor deleted from a sandbox.
pub proof fn lemma_managed_setting_is_kept(
    pane: SandboxSettingsPane,
    key: KeyEvent,
    post: SandboxSettingsPane,
)
    requires
        pane.key_step(key, post),
        pane.managed(),
    ensures
        post.sandbox_setting_edit == pane.sandbox_setting_edit,
        post.sandbox_confirm_setting_set == pane.sandbox_confirm_setting_set,
        post.sandbox_confirm_setting_delete == pane.sandbox_confirm_setting_delete,
{
}

/// A value is only put up for confirmation by the editor once its kind admits it.
pub proof fn lemma_confirmed_value_is_valid(
    pane: GlobalSettingsPane,
    key: KeyEvent,
    check: SettingCheck,
    post: GlobalSettingsPane,
)
    requires
        pane.editor_step(key, check, post),
        pane.confirm_setting_set is None,
        post.confirm_setting_set is Some,
    ensures
        pane.setting_edit matches Some(edit) && refusal(
            pane.kind_at(edit.index),
            edit.input@,
            check,
        ) is None,
{
}

/// Whether a key answers yes.
pub open spec fn says_yes(key: KeyEvent) -> bool {
    key.code == KeyCode::Char('y') || key.code == KeyCode::Enter
}

/// Whether a key answers no.
pub open spec fn says_no(key: KeyEvent) -> bool {
    key.code == KeyCode::Char('n') || key.code == KeyCode::Esc
}

/// A global setting is set by the answer yes to the question whether to set it, and deleted by the
/// answer yes to the question whether to delete it; each answer closes its own question and leaves
/// the other one, the settings and the selection alone.
pub proof fn lemma_global_settings_change_by_their_answers(pane: GlobalSettingsPane, key: KeyEvent)
    ensures
        ({
            let set = pane.after_confirm_set(key);
            &&& set.pending_setting_set <==> pane.pending_setting_set || says_yes(key)
            &&& set.pending_setting_delete == pane.pending_setting_delete
            &&& says_yes(key) || says_no(key) ==> set.confirm_setting_set is None
            &&& !says_yes(key) && !says_no(key) ==> set == pane
            &&& set.confirm_setting_delete == pane.confirm_setting_delete
            &&& says_no(key) ==> set.setting_edit is None
            &&& says_yes(key) ==> set.setting_edit == pane.setting_edit
            &&& set.global_settings == pane.global_settings
            &&& set.global_settings_selected == pane.global_settings_selected
            &&& set.global_settings_revision == pane.global_settings_revision
        }),
        ({
            let gone = pane.after_confirm_delete(key);
            &&& gone.pending_setting_delete <==> pane.pending_setting_delete || says_yes(key)
            &&& gone.pending_setting_set == pane.pending_setting_set
            &&& says_yes(key) || says_no(key) ==> gone.confirm_setting_delete is None
            &&& !says_yes(key) && !says_no(key) ==> gone == pane
            &&& gone.confirm_setting_set == pane.confirm_setting_set
            &&& gone.setting_edit == pane.setting_edit
            &&& gone.global_settings == pane.global_settings
            &&& gone.global_settings_selected == pane.global_settings_selected
            &&& gone.global_settings_revision == pane.global_settings_revision
        }),
{
}

/// A setting of a sandbox is set and deleted by the answers to its own questions.
pub proof fn lemma_sandbox_settings_change_by_their_answers(pane: SandboxSettingsPane, key: KeyEvent)
    ensures
        ({
            let set = pane.after_confirm_set(key);
            &&& set.pending_sandbox_setting_set <==> pane.pending_sandbox_setting_set || says_yes(
                key,
            )
            &&& set.pending_sandbox_setting_delete == pane.pending_sandbox_setting_delete
            &&& says_yes(key) || says_no(key) ==> set.sandbox_confirm_setting_set is None
            &&& !says_yes(key) && !says_no(key) ==> set == pane
            &&& set.sandbox_confirm_setting_delete == pane.sandbox_confirm_setting_delete
            &&& says_no(key) ==> set.sandbox_setting_edit is None
            &&& says_yes(key) ==> set.sandbox_setting_edit == pane.sandbox_setting_edit
            &&& set.sandbox_settings == pane.sandbox_settings
            &&& set.sandbox_settings_selected == pane.sandbox_settings_selected
        }),
        ({
            let gone = pane.after_confirm_delete(key);
            &&& gone.pending_sandbox_setting_delete <==> pane.pending_sandbox_setting_delete
                || says_yes(key)
            &&& gone.pending_sandbox_setting_set == pane.pending_sandbox_setting_set
            &&& says_yes(key) || says_no(key) ==> gone.sandbox_confirm_setting_delete is None
            &&& !says_yes(key) && !says_no(key) ==> gone == pane
            &&& gone.sandbox_confirm_setting_set == pane.sandbox_confirm_setting_set
            &&& gone.sandbox_setting_edit == pane.sandbox_setting_edit
            &&& gone.sandbox_settings == pane.sandbox_settings
            &&& gone.sandbox_settings_selected == pane.sandbox_settings_selected
        }),
{
}

/// Whether a text is a value for a setting of a kind.
pub open spec fn fits(kind: Option<SettingValueKind>, input: Seq<char>, check: SettingCheck) -> bool {
    match kind {
        None => true,
        Some(SettingValueKind::Int) => signed_value(trimmed(input)) matches Some(n)
            && -0x8000_0000_0000_0000 <= n <= 0x7fff_ffff_ffff_ffff,
        Some(SettingValueKind::Bool) => check.bool_like,
        Some(SettingValueKind::String) => check.allowed is None,
    }
}

/// In the editor, characters go to the end of the text and backspace takes the last away; escape
/// closes it; and enter puts the value up for confirmation where it is one for the setting, and
/// says what is expected otherwise.
pub proof fn lemma_editor_takes_values_that_fit(
    edit: SettingEditState,
    key: KeyEvent,
    kind: Option<SettingValueKind>,
    check: SettingCheck,
    post: SettingEditState,
)
    requires
        edit.key_step(key, kind, check, post),
    ensures
        edit.outcome(key, kind, check) == EditOutcome::Close <==> key.code == KeyCode::Esc,
        edit.outcome(key, kind, check) == EditOutcome::Confirm <==> key.code == KeyCode::Enter
            && fits(kind, edit.input@, check),
        post.index == edit.index,
        key.code matches KeyCode::Char(c) ==> post.input@ == edit.input@.push(c)
            && post.error is None,
        key.code == KeyCode::Backspace && edit.input@.len() > 0 ==> post.input@
            == edit.input@.drop_last() && post.error is None,
        !(key.code is Char) && key.code != KeyCode::Backspace ==> post.input@ == edit.input@,
        key.code == KeyCode::Enter && fits(kind, edit.input@, check) ==> post.error is None,
        key.code == KeyCode::Enter && !fits(kind, edit.input@, check) ==> (post.error matches Some(
            why,
        ) && match kind {
            Some(SettingValueKind::Int) => why@ == "expected integer"@,
            Some(SettingValueKind::Bool) => why@ == "expected true/false/yes/no/1/0"@,
            Some(SettingValueKind::String) => check.allowed matches Some(allowed) && why@
                == "expected one of: "@ + joined(texts(allowed@), ", "@),
            None => false,
        }),
{
}

/// The global editor keeps to the setting that it was opened for: enter with a value that fits
/// asks whether to set that one, escape closes the editor, and no key in it sets, deletes or asks
/// anything else.
pub proof fn lemma_global_editor_asks_for_its_setting(
    pane: GlobalSettingsPane,
    key: KeyEvent,
    check: SettingCheck,
    post: GlobalSettingsPane,
)
    requires
        pane.editor_step(key, check, post),
    ensures
        pane.setting_edit matches Some(edit) ==> {
            let kind = if edit.index < pane.global_settings@.len() {
                Some(pane.global_settings@[edit.index as int].kind)
            } else {
                None
            };
            let asks = key.code == KeyCode::Enter && fits(kind, edit.input@, check);
            &&& asks ==> post.confirm_setting_set == Some(edit.index)
            &&& !asks ==> post.confirm_setting_set == pane.confirm_setting_set
            &&& key.code == KeyCode::Esc <==> post.setting_edit is None
        },
        post.pending_setting_set == pane.pending_setting_set,
        post.pending_setting_delete == pane.pending_setting_delete,
        post.confirm_setting_delete == pane.confirm_setting_delete,
        post.global_settings == pane.global_settings,
        post.global_settings_selected == pane.global_settings_selected,
{
}

/// The editor of a sandbox keeps to the setting that it was opened for.
pub proof fn lemma_sandbox_editor_asks_for_its_setting(
    pane: SandboxSettingsPane,
    key: KeyEvent,
    check: SettingCheck,
    post: SandboxSettingsPane,
)
    requires
        pane.editor_step(key, check, post),
    ensures
        pane.sandbox_setting_edit matches Some(edit) ==> {
            let kind = if edit.index < pane.sandbox_settings@.len() {
                Some(pane.sandbox_settings@[edit.index as int].kind)
            } else {
                None
            };
            let asks = key.code == KeyCode::Enter && fits(kind, edit.input@, check);
            &&& asks ==> post.sandbox_confirm_setting_set == Some(edit.index)
            &&& !asks ==> post.sandbox_confirm_setting_set == pane.sandbox_confirm_setting_set
            &&& key.code == KeyCode::Esc <==> post.sandbox_setting_edit is None
        },
        post.pending_sandbox_setting_set == pane.pending_sandbox_setting_set,
        post.pending_sandbox_setting_delete == pane.pending_sandbox_setting_delete,
        post.sandbox_confirm_setting_delete == pane.sandbox_confirm_setting_delete,
        post.sandbox_settings == pane.sandbox_settings,
        post.sandbox_settings_selected == pane.sandbox_settings_selected,
{
}

/// Editing begins with the value that the setting has: a truth value with the other one, a number
/// or a text as it is, and what is not set with nothing.
pub proof fn lemma_editing_begins_with_the_value(
    edit: Option<SettingEditState>,
    index: usize,
    kind: SettingValueKind,
    value: Option<SettingValue>,
)
    requires
        begins_edit(edit, index, kind, value),
    ensures
        edit matches Some(begun) && {
            &&& begun.index == index
            &&& begun.error is None
            &&& kind == SettingValueKind::Bool ==> begun.input@ == if value == Some(
                SettingValue::BoolValue(true),
            ) {
                "false"@
            } else {
                "true"@
            }
            &&& kind != SettingValueKind::Bool && value is None ==> begun.input@.len() == 0
            &&& kind != SettingValueKind::Bool ==> (value matches Some(SettingValue::IntValue(n))
                ==> begun.input@ == crate::text::signed_decimal_of(n as int))
            &&& kind != SettingValueKind::Bool ==> (value matches Some(SettingValue::StringValue(s))
                ==> (s@ != "<unset>"@ ==> begun.input@ == s@))
        },
{
    if let Some(SettingValue::IntValue(n)) = value {
        crate::text::lemma_decimal_digits(if n < 0 {
            -(n as int)
        } else {
            n as int
        } as nat);
        crate::text::lemma_decimal_not_empty(if n < 0 {
            -(n as int)
        } else {
            n as int
        } as nat);
        reveal_strlit("<unset>");
        assert("<unset>"@[0] == '<');
        assert(crate::text::signed_decimal_of(n as int)[0] != '<');
    }
}

/// Enter edits the selected global setting, and puts a truth value straight up for confirmation;
/// deleting is asked of the selected setting where it has a value.
pub proof fn lemma_selected_global_setting_is_edited(pane: GlobalSettingsPane, post: GlobalSettingsPane)
    requires
        pane.edit_step(post),
    ensures
        ({
            let at = pane.global_settings_selected;
            let there = at < pane.global_settings@.len();
            &&& there ==> (post.setting_edit matches Some(edit) && edit.index == at)
            &&& there && pane.global_settings@[at as int].kind == SettingValueKind::Bool
                ==> post.confirm_setting_set == Some(at)
            &&& !there || pane.global_settings@[at as int].kind != SettingValueKind::Bool
                ==> post.confirm_setting_set == pane.confirm_setting_set
            &&& !there ==> post == pane
            &&& post.pending_setting_set == pane.pending_setting_set
            &&& post.pending_setting_delete == pane.pending_setting_delete
            &&& pane.asking_delete().confirm_setting_delete == if there
                && pane.global_settings@[at as int].value is Some {
                Some(at)
            } else {
                pane.confirm_setting_delete
            }
            &&& pane.asking_delete().pending_setting_delete == pane.pending_setting_delete
            &&& pane.asking_delete().confirm_setting_set == pane.confirm_setting_set
            &&& pane.asking_delete().setting_edit == pane.setting_edit
        }),
{
}

/// In the settings of a sandbox the keys move the selection by one row, edit it, or ask to delete
/// it; a setting that is managed globally is neither edited nor deleted, and that is said.
pub proof fn lemma_sandbox_settings_keys(pane: SandboxSettingsPane, key: KeyEvent, post: SandboxSettingsPane)
    requires
        pane.wf(),
        pane.key_step(key, post),
    ensures
        ({
            let at = pane.sandbox_settings_selected;
            let len = pane.sandbox_settings@.len();
            let there = at < len;
            let held = there && pane.sandbox_settings@[at as int].scope == SettingScope::Global;
            let edits = key.code == KeyCode::Enter && there && !held;
            let deletes = key.code == KeyCode::Char('d') && there && !held
                && pane.sandbox_settings@[at as int].value is Some;
            let down = key.code == KeyCode::Down || key.code == KeyCode::Char('j');
            let up = key.code == KeyCode::Up || key.code == KeyCode::Char('k');
            &&& down && at + 1 < len ==> post.sandbox_settings_selected == at + 1
            &&& down && at + 1 == len ==> post.sandbox_settings_selected == at
            &&& up && at > 0 ==> post.sandbox_settings_selected == at - 1
            &&& up && at == 0 ==> post.sandbox_settings_selected == 0
            &&& !down && !up ==> post.sandbox_settings_selected == at
            &&& edits ==> (post.sandbox_setting_edit matches Some(edit) && edit.index == at)
            &&& !edits ==> post.sandbox_setting_edit == pane.sandbox_setting_edit
            &&& edits && pane.sandbox_settings@[at as int].kind == SettingValueKind::Bool
                ==> post.sandbox_confirm_setting_set == Some(at)
            &&& !edits || pane.sandbox_settings@[at as int].kind != SettingValueKind::Bool
                ==> post.sandbox_confirm_setting_set == pane.sandbox_confirm_setting_set
            &&& deletes ==> post.sandbox_confirm_setting_delete == Some(at)
            &&& !deletes ==> post.sandbox_confirm_setting_delete
                == pane.sandbox_confirm_setting_delete
            &&& post.pending_sandbox_setting_set == pane.pending_sandbox_setting_set
            &&& post.pending_sandbox_setting_delete == pane.pending_sandbox_setting_delete
            &&& post.sandbox_settings == pane.sandbox_settings
            &&& pane.outcome(key) == SettingsOutcome::ManagedGlobally <==> held && (key.code
                == KeyCode::Enter || key.code == KeyCode::Char('d'))
            &&& pane.outcome(key) == SettingsOutcome::Quit <==> key.code == KeyCode::Char('q')
            &&& pane.outcome(key) == SettingsOutcome::Leave <==> key.code == KeyCode::Esc
            &&& pane.outcome(key) == SettingsOutcome::NextTab <==> key.code == KeyCode::Char('h')
                || key.code == KeyCode::Char('l') || key.code == KeyCode::Left || key.code
                == KeyCode::Right
        }),
{
}

/// The settings are listed as they are registered, each with the value that the gateway has for
/// its key, and a sandbox's with where the value was set: 1 for the sandbox, 2 for all.
pub proof fn lemma_settings_are_listed_by_key(
    registered: Seq<RegisteredSetting>,
    found: Map<Seq<char>, EffectiveSetting>,
    entries: Seq<SandboxSettingEntry>,
    i: int,
)
    requires
        lists_effective(registered, found, entries),
        0 <= i < registered.len(),
    ensures
        entries.len() == registered.len(),
        entries[i].key@ == registered[i].key@,
        entries[i].kind == registered[i].kind,
        !found.dom().contains(registered[i].key@) ==> entries[i].value is None && entries[i].scope
            == SettingScope::Unset,
        found.dom().contains(registered[i].key@) ==> {
            let setting = found[registered[i].key@];
            &&& setting.scope == 1 ==> entries[i].scope == SettingScope::Sandbox
            &&& setting.scope == 2 ==> entries[i].scope == SettingScope::Global
            &&& setting.scope != 1 && setting.scope != 2 ==> entries[i].scope
                == SettingScope::Unset
            &&& setting.value is None <==> entries[i].value is None
            &&& setting.value matches Some(SettingValue::StringValue(s)) ==> (entries[i].value
                matches Some(SettingValue::StringValue(t)) && t@ == s@)
            &&& setting.value matches Some(SettingValue::BoolValue(b)) ==> entries[i].value == Some(
                SettingValue::BoolValue(b),
            )
            &&& setting.value matches Some(SettingValue::IntValue(n)) ==> entries[i].value == Some(
                SettingValue::IntValue(n),
            )
            &&& setting.value matches Some(SettingValue::BytesValue(b)) ==> (entries[i].value
                matches Some(SettingValue::BytesValue(c)) && c@ == b@)
        },
{
    assert(entries[i].key@ == registered[i].key@);
}

/// The global settings are listed as they are registered, each with the value that the gateway
/// has for its key.
pub proof fn lemma_global_settings_are_listed_by_key(
    registered: Seq<RegisteredSetting>,
    found: Map<Seq<char>, Option<SettingValue>>,
    entries: Seq<GlobalSettingEntry>,
    i: int,
)
    requires
        lists_global(registered, found, entries),
        0 <= i < registered.len(),
    ensures
        entries.len() == registered.len(),
        entries[i].key@ == registered[i].key@,
        entries[i].kind == registered[i].kind,
        !found.dom().contains(registered[i].key@) ==> entries[i].value is None,
        found.dom().contains(registered[i].key@) ==> {
            let value = found[registered[i].key@];
            &&& value is None <==> entries[i].value is None
            &&& value matches Some(SettingValue::StringValue(s)) ==> (entries[i].value matches Some(
                SettingValue::StringValue(t),
            ) && t@ == s@)
            &&& value matches Some(SettingValue::BoolValue(b)) ==> entries[i].value == Some(
                SettingValue::BoolValue(b),
            )
            &&& value matches Some(SettingValue::IntValue(n)) ==> entries[i].value == Some(
                SettingValue::IntValue(n),
            )
            &&& value matches Some(SettingValue::BytesValue(b)) ==> (entries[i].value matches Some(
                SettingValue::BytesValue(c),
            ) && c@ == b@)
        },
{
    assert(entries[i].key@ == registered[i].key@);
}

/// Where access to the settings is denied, none is shown, edited or asked about, and what is known
/// of the policy stays; where access to the policy is denied, no policy counts as active, and the
/// settings stay.
pub proof fn lemma_denied_access_shows_nothing(
    pane: GlobalSettingsPane,
    settings: GlobalSettingsPane,
    policy: GlobalSettingsPane,
)
    requires
        pane.denies_settings(settings),
        pane.denies_policy(policy),
    ensures
        settings.global_settings_access_denied,
        settings.global_settings@.len() == 0,
        settings.global_settings_selected == 0,
        settings.setting_edit is None,
        settings.confirm_setting_set is None,
        settings.confirm_setting_delete is None,
        settings.global_policy_access_denied == pane.global_policy_access_denied,
        settings.global_policy_active == pane.global_policy_active,
        settings.global_policy_version == pane.global_policy_version,
        policy.global_policy_access_denied,
        !policy.global_policy_active,
        policy.global_policy_version == 0,
        policy.global_settings_access_denied == pane.global_settings_access_denied,
        policy.global_settings == pane.global_settings,
        policy.setting_edit == pane.setting_edit,
{
}

} // verus!
