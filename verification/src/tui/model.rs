//! What the interface shows and edits.

use vstd::prelude::*;
use indexmap::IndexMap;
use crate::text;
use crate::text_map::TextMap;
use crate::tui::config_map;
use crate::tui::config_map::config_entries;

verus! {

/// Top-level screen, each a full-screen layout with its own nav bar.
#[derive(Debug, Clone, Copy, PartialEq, Eq, Structural)]
pub enum Screen {
    /// Shown on startup.
    Splash,
    /// Gateway list, provider list and sandbox table.
    Dashboard,
    /// Single-sandbox view.
    Sandbox,
}

#[derive(Debug, Clone, Copy, PartialEq, Eq, Structural)]
pub enum InputMode {
    Normal,
    Command,
}

/// Which panel is focused within the current screen.
#[derive(Debug, Clone, Copy, PartialEq, Eq, Structural)]
pub enum Focus {
    Gateways,
    Providers,
    Sandboxes,
    SandboxPolicy,
    SandboxLogs,
    SandboxDraft,
}

/// A log line as the server sent it.
pub struct LogLine {
    pub timestamp_ms: i64,
    pub level: String,
    /// "gateway" or "sandbox".
    pub source: String,
    pub target: String,
    pub message: String,
    pub fields: TextMap<String>,
}

/// Which log sources to display.
#[derive(Debug, Clone, Copy, PartialEq, Eq, Structural)]
pub enum LogSourceFilter {
    All,
    Gateway,
    Sandbox,
}

impl LogSourceFilter {
    /// The filter after this one.
    pub open spec fn after(self) -> Self {
        match self {
            LogSourceFilter::All => LogSourceFilter::Gateway,
            LogSourceFilter::Gateway => LogSourceFilter::Sandbox,
            LogSourceFilter::Sandbox => LogSourceFilter::All,
        }
    }

    /// The text that stands for the filter.
    pub open spec fn name(self) -> Seq<char> {
        match self {
            LogSourceFilter::All => "all"@,
            LogSourceFilter::Gateway => "gateway"@,
            LogSourceFilter::Sandbox => "sandbox"@,
        }
    }

    /// Whether the filter lets lines from `source` through.
    pub open spec fn admits(self, source: Seq<char>) -> bool {
        self == LogSourceFilter::All || source == self.name()
    }

    pub fn next(self) -> (filter: Self)
        ensures
            filter == self.after(),
    {
        match self {
            LogSourceFilter::All => LogSourceFilter::Gateway,
            LogSourceFilter::Gateway => LogSourceFilter::Sandbox,
            LogSourceFilter::Sandbox => LogSourceFilter::All,
        }
    }

    pub fn label(self) -> (name: &'static str)
        ensures
            name@ == self.name(),
    {
        match self {
            LogSourceFilter::All => "all",
            LogSourceFilter::Gateway => "gateway",
            LogSourceFilter::Sandbox => "sandbox",
        }
    }
}

/// Which tab is active in the middle pane of the dashboard.
#[derive(Debug, Clone, Copy, PartialEq, Eq, Structural)]
pub enum MiddlePaneTab {
    Providers,
    GlobalSettings,
}

impl MiddlePaneTab {
    /// The other tab.
    pub open spec fn after(self) -> Self {
        match self {
            MiddlePaneTab::Providers => MiddlePaneTab::GlobalSettings,
            MiddlePaneTab::GlobalSettings => MiddlePaneTab::Providers,
        }
    }

    pub fn next(self) -> (tab: Self)
        ensures
            tab == self.after(),
    {
        match self {
            MiddlePaneTab::Providers => MiddlePaneTab::GlobalSettings,
            MiddlePaneTab::GlobalSettings => MiddlePaneTab::Providers,
        }
    }
}

/// The kind of value that a setting takes.
#[derive(Debug, Clone, Copy, PartialEq, Eq, Structural)]
pub enum SettingValueKind {
    String,
    Int,
    Bool,
}

impl SettingValueKind {
    /// The text that stands for the kind.
    pub open spec fn name(self) -> Seq<char> {
        match self {
            SettingValueKind::String => "string"@,
            SettingValueKind::Int => "int"@,
            SettingValueKind::Bool => "bool"@,
        }
    }

    pub fn as_str(self) -> (name: &'static str)
        ensures
            name@ == self.name(),
    {
        match self {
            SettingValueKind::String => "string",
            SettingValueKind::Int => "int",
            SettingValueKind::Bool => "bool",
        }
    }
}

/// The value of a setting.
#[derive(Debug)]
pub enum SettingValue {
    StringValue(String),
    BoolValue(bool),
    IntValue(i64),
    BytesValue(Vec<u8>),
}

/// The text for a truth value.
pub open spec fn bool_text(b: bool) -> Seq<char> {
    if b {
        "true"@
    } else {
        "false"@
    }
}

/// The text for a truth value.
pub fn bool_label(b: bool) -> (s: String)
    ensures
        s@ == bool_text(b),
{
    if b {
        "true".to_string()
    } else {
        "false".to_string()
    }
}

/// How a setting's value is shown.
pub open spec fn setting_text(value: Option<SettingValue>) -> Seq<char> {
    match value {
        None => "<unset>"@,
        Some(SettingValue::StringValue(v)) => v@,
        Some(SettingValue::BoolValue(v)) => bool_text(v),
        Some(SettingValue::IntValue(v)) => text::signed_decimal_of(v as int),
        Some(SettingValue::BytesValue(_)) => "<bytes>"@,
    }
}

/// Formats a setting's value for display.
pub fn display_setting_value(value: &Option<SettingValue>) -> (s: String)
    ensures
        s@ == setting_text(*value),
{
    match value {
        None => "<unset>".to_string(),
        Some(SettingValue::StringValue(v)) => v.clone(),
        Some(SettingValue::BoolValue(v)) => bool_label(*v),
        Some(SettingValue::IntValue(v)) => text::signed_decimal(*v),
        Some(SettingValue::BytesValue(_)) => "<bytes>".to_string(),
    }
}

/// A global setting.
#[derive(Debug)]
pub struct GlobalSettingEntry {
    pub key: String,
    pub kind: SettingValueKind,
    pub value: Option<SettingValue>,
}

impl GlobalSettingEntry {
    pub fn display_value(&self) -> (s: String)
        ensures
            s@ == setting_text(self.value),
    {
        display_setting_value(&self.value)
    }
}

/// Editing state for a global or sandbox setting.
#[derive(Debug)]
pub struct SettingEditState {
    /// Index into the settings list being edited.
    pub index: usize,
    /// Text buffer for string and int settings.
    pub input: String,
    /// Validation error to display.
    pub error: Option<String>,
}

/// Which tab is active in the bottom pane of the sandbox screen.
#[derive(Debug, Clone, Copy, PartialEq, Eq, Structural)]
pub enum SandboxPolicyTab {
    Policy,
    Settings,
    Trust,
}

impl SandboxPolicyTab {
    /// The tab after this one.
    pub open spec fn after(self) -> Self {
        match self {
            SandboxPolicyTab::Policy => SandboxPolicyTab::Settings,
            SandboxPolicyTab::Settings => SandboxPolicyTab::Trust,
            SandboxPolicyTab::Trust => SandboxPolicyTab::Policy,
        }
    }

    pub fn next(self) -> (tab: Self)
        ensures
            tab == self.after(),
    {
        match self {
            SandboxPolicyTab::Policy => SandboxPolicyTab::Settings,
            SandboxPolicyTab::Settings => SandboxPolicyTab::Trust,
            SandboxPolicyTab::Trust => SandboxPolicyTab::Policy,
        }
    }
}

/// The scope a sandbox setting was resolved from.
#[derive(Debug, Clone, Copy, PartialEq, Eq, Structural)]
pub enum SettingScope {
    Unset,
    Sandbox,
    Global,
}

impl SettingScope {
    /// The text that stands for the scope.
    pub open spec fn name(self) -> Seq<char> {
        match self {
            SettingScope::Unset => "unset"@,
            SettingScope::Sandbox => "sandbox"@,
            SettingScope::Global => "global"@,
        }
    }

    pub fn label(self) -> (name: &'static str)
        ensures
            name@ == self.name(),
    {
        match self {
            SettingScope::Unset => "unset",
            SettingScope::Sandbox => "sandbox",
            SettingScope::Global => "global",
        }
    }
}

/// An effective setting of a sandbox, with the scope it came from.
#[derive(Debug)]
pub struct SandboxSettingEntry {
    pub key: String,
    pub kind: SettingValueKind,
    pub value: Option<SettingValue>,
    pub scope: SettingScope,
}

impl SandboxSettingEntry {
    pub fn display_value(&self) -> (s: String)
        ensures
            s@ == setting_text(self.value),
    {
        display_setting_value(&self.value)
    }

    pub fn is_globally_managed(&self) -> (yes: bool)
        ensures
            yes == (self.scope == SettingScope::Global),
    {
        self.scope == SettingScope::Global
    }
}

/// Where a gateway's metadata came from.
#[derive(Debug, Clone, Copy, PartialEq, Eq, Structural)]
pub enum GatewayMetadataSource {
    User,
    System,
}

/// A gateway that can be connected to.
#[derive(Debug)]
pub struct GatewayEntry {
    pub name: String,
    pub endpoint: String,
    pub is_remote: bool,
    pub source: Option<GatewayMetadataSource>,
}

/// The text for a gateway's source.
pub open spec fn source_text(source: Option<GatewayMetadataSource>) -> Seq<char> {
    match source {
        Some(GatewayMetadataSource::User) => "user"@,
        Some(GatewayMetadataSource::System) => "system"@,
        None => "unknown"@,
    }
}

impl GatewayEntry {
    pub fn source_label(&self) -> (label: &'static str)
        ensures
            label@ == source_text(self.source),
    {
        match self.source {
            Some(GatewayMetadataSource::User) => "user",
            Some(GatewayMetadataSource::System) => "system",
            None => "unknown",
        }
    }
}

/// Which field is focused in the create sandbox modal.
#[derive(Debug, Clone, Copy, PartialEq, Eq, Structural)]
pub enum CreateFormField {
    Name,
    Image,
    Command,
    Providers,
    Ports,
    Submit,
}

impl CreateFormField {
    /// The field after this one.
    pub open spec fn after(self) -> Self {
        match self {
            CreateFormField::Name => CreateFormField::Image,
            CreateFormField::Image => CreateFormField::Command,
            CreateFormField::Command => CreateFormField::Providers,
            CreateFormField::Providers => CreateFormField::Ports,
            CreateFormField::Ports => CreateFormField::Submit,
            CreateFormField::Submit => CreateFormField::Name,
        }
    }

    /// The field before this one.
    pub open spec fn before(self) -> Self {
        match self {
            CreateFormField::Name => CreateFormField::Submit,
            CreateFormField::Image => CreateFormField::Name,
            CreateFormField::Command => CreateFormField::Image,
            CreateFormField::Providers => CreateFormField::Command,
            CreateFormField::Ports => CreateFormField::Providers,
            CreateFormField::Submit => CreateFormField::Ports,
        }
    }

    pub fn next(self) -> (field: Self)
        ensures
            field == self.after(),
    {
        match self {
            CreateFormField::Name => CreateFormField::Image,
            CreateFormField::Image => CreateFormField::Command,
            CreateFormField::Command => CreateFormField::Providers,
            CreateFormField::Providers => CreateFormField::Ports,
            CreateFormField::Ports => CreateFormField::Submit,
            CreateFormField::Submit => CreateFormField::Name,
        }
    }

    pub fn prev(self) -> (field: Self)
        ensures
            field == self.before(),
    {
        match self {
            CreateFormField::Name => CreateFormField::Submit,
            CreateFormField::Image => CreateFormField::Name,
            CreateFormField::Command => CreateFormField::Image,
            CreateFormField::Providers => CreateFormField::Command,
            CreateFormField::Ports => CreateFormField::Providers,
            CreateFormField::Submit => CreateFormField::Ports,
        }
    }
}

/// An existing provider that a new sandbox can use.
#[derive(Debug)]
pub struct ProviderEntry {
    pub name: String,
    pub provider_type: String,
    pub selected: bool,
}

/// Which phase the create sandbox modal is in.
#[derive(Debug, Clone, Copy, PartialEq, Eq, Structural)]
pub enum CreatePhase {
    /// Filling out the form.
    Form,
    /// Creating the sandbox, in a background task.
    Creating,
}

/// Minimum time, in milliseconds, to show the creating phase before closing.
pub const MIN_CREATING_DISPLAY: u64 = 4000;

/// State of the create sandbox modal.
pub struct CreateSandboxForm {
    pub focused_field: CreateFormField,
    pub name: String,
    pub image: String,
    pub command: String,
    pub providers: Vec<ProviderEntry>,
    pub provider_cursor: usize,
    /// Comma-separated port numbers to forward.
    pub ports: String,
    /// Status message shown after a submit attempt.
    pub status: Option<String>,
    pub phase: CreatePhase,
    /// When the create animation started, in milliseconds.
    pub anim_start: Option<u64>,
    /// The outcome, `Ok((name, workspace))` or `Err(message)`, held until the minimum display
    /// time has passed.
    pub create_result: Option<Result<(String, String), String>>,
}

impl CreateSandboxForm {
    /// The form as it opens, for the given providers.
    pub fn with_providers(providers: Vec<ProviderEntry>) -> (form: Self)
        ensures
            form.focused_field == CreateFormField::Name,
            form.name@ == Seq::<char>::empty(),
            form.image@ == Seq::<char>::empty(),
            form.command@ == Seq::<char>::empty(),
            form.providers == providers,
            form.provider_cursor == 0,
            form.ports@ == Seq::<char>::empty(),
            form.status is None,
            form.phase == CreatePhase::Form,
            form.anim_start is None,
            form.create_result is None,
    {
        CreateSandboxForm {
            focused_field: CreateFormField::Name,
            name: String::new(),
            image: String::new(),
            command: String::new(),
            providers,
            provider_cursor: 0,
            ports: String::new(),
            status: None,
            phase: CreatePhase::Form,
            anim_start: None,
            create_result: None,
        }
    }
}

#[derive(Debug, Clone, Copy, PartialEq, Eq, Structural)]
pub enum CreateProviderPhase {
    /// Pick a provider type from the known list.
    SelectType,
    /// Choose between looking in the environment and entering a key.
    ChooseMethod,
    /// Enter a key by hand.
    EnterKey,
    /// Creating the provider on the gateway, in a background task.
    Creating,
}

/// Which field is focused in the provider key entry form.
#[derive(Debug, Clone, Copy, PartialEq, Eq, Structural)]
pub enum ProviderKeyField {
    Name,
    /// A credential row of a known type, at `cred_cursor`.
    Credential,
    /// Custom environment variable name, for types without known ones.
    EnvVarName,
    /// Custom environment variable value, for types without known ones.
    GenericValue,
    /// Browsing and deleting the existing config entries.
    ConfigList,
    ConfigKeyName,
    ConfigKeyValue,
    Submit,
}

/// State of the create provider modal.
pub struct CreateProviderForm {
    pub phase: CreateProviderPhase,
    /// Known provider type slugs.
    pub types: Vec<String>,
    pub type_cursor: usize,
    /// 0 to look in the environment, 1 to enter by hand.
    pub method_cursor: usize,
    pub name: String,
    /// For known types: environment variable names with the values entered for them.
    pub credentials: Vec<(String, String)>,
    /// Which credential row is focused.
    pub cred_cursor: usize,
    /// Provider configuration.
    pub config: IndexMap<String, String>,
    /// Which config entry is selected.
    pub config_cursor: usize,
    /// Config key being entered.
    pub config_key_input: String,
    /// Config value being entered.
    pub config_value_input: String,
    pub generic_env_name: String,
    pub generic_value: String,
    pub key_field: ProviderKeyField,
    /// True when the provider type has no known environment variables.
    pub is_generic: bool,
    /// Status message.
    pub status: Option<String>,
    /// Warning shown at the top of the key entry.
    pub warning: Option<String>,
    /// When the animation started, in milliseconds.
    pub anim_start: Option<u64>,
    /// Buffered outcome.
    pub create_result: Option<Result<String, String>>,
    /// Credentials to send.
    pub discovered_credentials: Option<TextMap<String>>,
}

impl CreateProviderForm {
    /// The form as it opens, for the given provider types.
    pub fn with_types(types: Vec<String>) -> (form: Self)
        ensures
            form.phase == CreateProviderPhase::SelectType,
            form.types == types,
            form.type_cursor == 0,
            form.method_cursor == 0,
            form.name@ == Seq::<char>::empty(),
            form.credentials@ == Seq::<(String, String)>::empty(),
            form.cred_cursor == 0,
            config_entries(form.config) == Seq::<(Seq<char>, Seq<char>)>::empty(),
            form.config_cursor == 0,
            form.config_key_input@ == Seq::<char>::empty(),
            form.config_value_input@ == Seq::<char>::empty(),
            form.generic_env_name@ == Seq::<char>::empty(),
            form.generic_value@ == Seq::<char>::empty(),
            form.key_field == ProviderKeyField::Name,
            !form.is_generic,
            form.status is None,
            form.warning is None,
            form.anim_start is None,
            form.create_result is None,
            form.discovered_credentials is None,
    {
        CreateProviderForm {
            phase: CreateProviderPhase::SelectType,
            types,
            type_cursor: 0,
            method_cursor: 0,
            name: String::new(),
            credentials: Vec::new(),
            cred_cursor: 0,
            config: config_map::empty(),
            config_cursor: 0,
            config_key_input: String::new(),
            config_value_input: String::new(),
            generic_env_name: String::new(),
            generic_value: String::new(),
            key_field: ProviderKeyField::Name,
            is_generic: false,
            status: None,
            warning: None,
            anim_start: None,
            create_result: None,
            discovered_credentials: None,
        }
    }
}

/// What the provider detail modal shows.
#[derive(Debug)]
pub struct ProviderDetailView {
    pub name: String,
    pub provider_id: String,
    pub provider_type: String,
    pub resource_version: u64,
    pub summary_scroll: usize,
    pub show_raw_profile: bool,
    pub show_raw_provider: bool,
    pub raw_profile_scroll: usize,
    pub raw_provider_scroll: usize,
    pub raw_profile_yaml: Option<String>,
    pub raw_provider_yaml: String,
    pub profile_name: Option<String>,
    pub profile_category: Option<String>,
    pub profile_description: Option<String>,
    pub credential_lines: Vec<String>,
    pub config_lines: Vec<String>,
    pub policy_lines: Vec<String>,
    pub discovery_lines: Vec<String>,
    pub refresh_lines: Vec<String>,
}

#[derive(Debug, Clone, Copy, PartialEq, Eq, Structural)]
pub enum UpdateProviderField {
    CredentialValue,
    ConfigEntry,
    ConfigKey,
    ConfigValue,
    Submit,
}

/// State of the update provider modal.
pub struct UpdateProviderForm {
    pub provider_name: String,
    pub provider_type: String,
    pub credential_key: String,
    pub new_value: String,
    pub config: IndexMap<String, String>,
    pub original_config: IndexMap<String, String>,
    pub config_key_input: String,
    pub config_value_input: String,
    pub config_cursor: usize,
    pub deleted_keys: Vec<String>,
    pub focus: UpdateProviderField,
    pub status: Option<String>,
}

/// The filters of the log, and the tabs, go round: every one comes up once before the first
/// comes up again.
pub proof fn lemma_filters_and_tabs_go_round(
    filter: LogSourceFilter,
    tab: SandboxPolicyTab,
    pane: MiddlePaneTab,
)
    ensures
        filter.after() != filter,
        filter.after().after() != filter,
        filter.after().after().after() == filter,
        LogSourceFilter::All.after() == LogSourceFilter::Gateway,
        tab.after() != tab,
        tab.after().after() != tab,
        tab.after().after().after() == tab,
        SandboxPolicyTab::Policy.after() == SandboxPolicyTab::Settings,
        pane.after() != pane,
        pane.after().after() == pane,
{
}

/// Whatever field of the form is left forwards is entered again backwards; after six steps the
/// first comes up again, and the button stands before it.
pub proof fn lemma_fields_go_round(field: CreateFormField)
    ensures
        field.after().before() == field,
        field.before().after() == field,
        field.after() != field,
        field.after().after() != field,
        field.after().after().after() != field,
        field.after().after().after().after() != field,
        field.after().after().after().after().after() != field,
        field.after().after().after().after().after().after() == field,
        CreateFormField::Name.after() == CreateFormField::Image,
        CreateFormField::Image.after() == CreateFormField::Command,
        CreateFormField::Submit.before() == CreateFormField::Ports,
{
}

/// A filter that is not for all lets exactly the lines of the source of its name through.
pub proof fn lemma_filters_let_their_source_through(source: Seq<char>)
    ensures
        LogSourceFilter::All.admits(source),
        LogSourceFilter::Gateway.admits(source) <==> source == "gateway"@,
        LogSourceFilter::Sandbox.admits(source) <==> source == "sandbox"@,
{
}

/// A setting is shown as its value is: a text as it is, a number in digits, a truth value as the
/// word for it; and one without a value is shown as unset.
pub proof fn lemma_settings_are_shown_as_they_are(value: Option<SettingValue>)
    ensures
        value matches Some(SettingValue::StringValue(v)) ==> setting_text(value) == v@,
        value matches Some(SettingValue::BoolValue(v)) ==> setting_text(value) == if v {
            "true"@
        } else {
            "false"@
        },
        value matches Some(SettingValue::IntValue(v)) ==> text::signed_value(setting_text(value))
            == Some(v as int),
        value is None ==> setting_text(value) == "<unset>"@,
        value matches Some(SettingValue::BytesValue(_)) ==> setting_text(value) == "<bytes>"@,
{
    if let Some(SettingValue::IntValue(v)) = value {
        text::lemma_numbers_are_read_back(v as int);
    }
}

/// What is a kind, a scope or a source is called by its own name.
pub proof fn lemma_kinds_and_scopes_have_names(
    kind: SettingValueKind,
    scope: SettingScope,
    source: Option<GatewayMetadataSource>,
)
    ensures
        kind.name() == "string"@ <==> kind == SettingValueKind::String,
        kind.name() == "int"@ <==> kind == SettingValueKind::Int,
        kind.name() == "bool"@ <==> kind == SettingValueKind::Bool,
        scope.name() == "unset"@ <==> scope == SettingScope::Unset,
        scope.name() == "sandbox"@ <==> scope == SettingScope::Sandbox,
        scope.name() == "global"@ <==> scope == SettingScope::Global,
        source_text(source) == "user"@ <==> source == Some(GatewayMetadataSource::User),
        source_text(source) == "system"@ <==> source == Some(GatewayMetadataSource::System),
        source_text(source) == "unknown"@ <==> source is None,
{
    reveal_strlit("string");
    reveal_strlit("int");
    reveal_strlit("bool");
    reveal_strlit("unset");
    reveal_strlit("sandbox");
    reveal_strlit("global");
    reveal_strlit("user");
    reveal_strlit("system");
    reveal_strlit("unknown");
    assert("string"@.len() == 6 && "int"@.len() == 3 && "bool"@.len() == 4);
    assert("unset"@.len() == 5 && "sandbox"@.len() == 7 && "global"@.len() == 6);
    assert("user"@.len() == 4 && "system"@.len() == 6 && "unknown"@.len() == 7);
}

} // verus!
