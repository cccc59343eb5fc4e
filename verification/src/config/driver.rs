//! What the selected compute driver is started with.

use vstd::prelude::*;
use std::collections::BTreeMap;
use crate::config::file;
use crate::config::file::{
    inherited_keys, lemma_kubernetes_takes_over_by_name, lemma_nothing_else_is_inherited,
    lemma_other_names_stay, lemma_own_settings_win, merged_table, own_table, ComputeDriverKind,
    ConfigFile, DriverEntry, InheritedKey, TomlValue,
};
use crate::text;
use crate::text::{all_together, signed_decimal_of, together};
use crate::text_map::TextMap;

verus! {

/// The certificates by which guests are known to the gateway.
#[derive(Debug)]
pub struct GuestTlsPaths {
    pub ca: String,
    pub cert: String,
    pub key: String,
}

/// The gateway's own certificates.
#[derive(Debug)]
pub struct LocalTlsPaths {
    pub ca: String,
    pub client_cert: String,
    pub client_key: String,
}

impl GuestTlsPaths {
    /// Whether the authority stands at `ca`, the certificate at `cert` and its key at `key`.
    pub open spec fn stand_at(self, ca: Seq<char>, cert: Seq<char>, key: Seq<char>) -> bool {
        &&& ca == self.ca@
        &&& cert == self.cert@
        &&& key == self.key@
    }

    /// Whether these are what guests are given of the gateway's own certificates.
    pub open spec fn are_of(self, paths: LocalTlsPaths) -> bool {
        &&& self.ca@ == paths.ca@
        &&& self.cert@ == paths.client_cert@
        &&& self.key@ == paths.client_key@
    }

    /// The three paths.
    pub fn as_paths(&self) -> (paths: (&str, &str, &str))
        ensures
            self.stand_at(paths.0@, paths.1@, paths.2@),
    {
        (self.ca.as_str(), self.cert.as_str(), self.key.as_str())
    }

    /// What guests are given of the gateway's own certificates.
    pub fn from_local(paths: &LocalTlsPaths) -> (guest: Self)
        ensures
            guest.are_of(*paths),
    {
        GuestTlsPaths {
            ca: paths.ca.clone(),
            cert: paths.client_cert.clone(),
            key: paths.client_key.clone(),
        }
    }
}

/// What a driver's configuration is made from.
#[derive(Clone, Copy)]
pub struct DriverStartupContext<'a> {
    pub file: Option<&'a ConfigFile>,
    pub guest_tls: Option<&'a GuestTlsPaths>,
    pub gateway_port: u16,
    pub gateway_tls_enabled: bool,
    pub endpoint_overrides: &'a TextMap<String>,
}

/// Why a driver cannot be configured.
#[derive(Debug)]
pub enum DriverConfigError {
    /// A remote driver has no socket.
    NoSocketPath { name: String },
    /// There is no table for Kubernetes.
    NoKubernetesTable,
    /// A setting for Kubernetes is no text, for this reason.
    NotText { reason: String },
}

impl DriverConfigError {
    /// The error in words.
    pub open spec fn words(self) -> Seq<char> {
        match self {
            DriverConfigError::NoSocketPath { name } => "remote compute driver '"@ + name@
                + "' requires socket_path"@,
            DriverConfigError::NoKubernetesTable =>
                "K8s ServiceAccount bootstrap requires [openshell.drivers.kubernetes] when Kubernetes and sandbox JWT issuing are enabled"@,
            DriverConfigError::NotText { reason } =>
                "invalid Kubernetes ServiceAccount bootstrap config: "@ + reason@,
        }
    }

    /// The error in words.
    pub fn describe(&self) -> (s: String)
        ensures
            s@ == self.words(),
    {
        match self {
            DriverConfigError::NoSocketPath { name } => all_together(
                "remote compute driver '",
                name.as_str(),
                "' requires socket_path",
            ),
            DriverConfigError::NoKubernetesTable =>
                "K8s ServiceAccount bootstrap requires [openshell.drivers.kubernetes] when Kubernetes and sandbox JWT issuing are enabled".to_string(),
            DriverConfigError::NotText { reason } => together(
                "invalid Kubernetes ServiceAccount bootstrap config: ",
                reason.as_str(),
            ),
        }
    }
}

/// A driver that runs on its own and is reached by a socket.
#[derive(Debug)]
pub struct RemoteDriverConfig {
    pub socket_path: String,
}

impl Default for RemoteDriverConfig {
    /// A driver without a socket.
    fn default() -> (config: Self)
        ensures
            config.socket_path@ == Seq::<char>::empty(),
    {
        RemoteDriverConfig { socket_path: String::new() }
    }
}

/// The text under `key`, where there is one and it is a text.
pub open spec fn text_at(table: Map<Seq<char>, TomlValue>, key: Seq<char>) -> Option<Seq<char>> {
    if table.dom().contains(key) {
        match table[key] {
            TomlValue::String(s) => Some(s@),
            _ => None,
        }
    } else {
        None
    }
}

fn get_text(table: &TextMap<TomlValue>, key: &str) -> (text: Option<String>)
    ensures
        match text_at(table@, key@) {
            Some(s) => text matches Some(t) && t@ == s,
            None => text is None,
        },
{
    match table.get(key) {
        Some(TomlValue::String(s)) => Some(s.clone()),
        _ => None,
    }
}

/// The entry of driver `name` in a file.
pub open spec fn entry_of(file: ConfigFile, name: Seq<char>) -> Option<DriverEntry> {
    if file.openshell.drivers@.dom().contains(name) {
        Some(file.openshell.drivers@[name])
    } else {
        None
    }
}

/// The socket of a remote driver: the one that overrides, or that of the file, or none.
pub open spec fn socket_of(
    context: DriverStartupContext,
    kind: Option<ComputeDriverKind>,
    name: Seq<char>,
) -> Seq<char> {
    if context.endpoint_overrides@.dom().contains(name) {
        context.endpoint_overrides@[name]@
    } else {
        match context.file {
            Some(file) => match text_at(
                merged_table(kind, file.openshell.gateway, entry_of(*file, name)),
                "socket_path"@,
            ) {
                Some(socket) => socket,
                None => Seq::empty(),
            },
            None => Seq::empty(),
        }
    }
}

/// The configuration of a remote driver, given the built-in driver that its name stands for, if
/// it stands for one.
pub fn remote_driver_config_from_context(
    context: DriverStartupContext<'_>,
    kind: Option<ComputeDriverKind>,
    name: &str,
) -> (result: Result<RemoteDriverConfig, DriverConfigError>)
    ensures
        if socket_of(context, kind, name@).len() > 0 {
            result matches Ok(config) && config.socket_path@ == socket_of(context, kind, name@)
        } else {
            result matches Err(DriverConfigError::NoSocketPath { name: n }) && n@ == name@
        },
{
    let mut config = RemoteDriverConfig::default();
    if let Some(file) = context.file {
        let merged = file::driver_table(
            kind,
            &file.openshell.gateway,
            file.openshell.drivers.get(name),
        );
        if let Some(socket_path) = get_text(&merged, "socket_path") {
            config.socket_path = socket_path;
        }
    }
    apply_remote_driver_overrides(&mut config, context, name);
    match validate_remote_driver_config(&config, name) {
        Ok(()) => Ok(config),
        Err(error) => Err(error),
    }
}

fn apply_remote_driver_overrides(
    config: &mut RemoteDriverConfig,
    context: DriverStartupContext<'_>,
    name: &str,
)
    ensures
        final(config).socket_path@ == if context.endpoint_overrides@.dom().contains(name@) {
            context.endpoint_overrides@[name@]@
        } else {
            old(config).socket_path@
        },
{
    if let Some(socket_path) = context.endpoint_overrides.get(name) {
        config.socket_path = socket_path.clone();
    }
}

fn validate_remote_driver_config(config: &RemoteDriverConfig, name: &str) -> (result: Result<
    (),
    DriverConfigError,
>)
    ensures
        if config.socket_path@.len() > 0 {
            result is Ok
        } else {
            result matches Err(DriverConfigError::NoSocketPath { name: n }) && n@ == name@
        },
{
    if !config.socket_path.as_str().is_empty() {
        return Ok(());
    }
    Err(DriverConfigError::NoSocketPath { name: name.to_string() })
}

/// A driver's socket is its own: none comes from the gateway's defaults, whatever built-in driver
/// shares the name.
pub proof fn lemma_socket_is_never_inherited(
    kind: Option<ComputeDriverKind>,
    gateway: file::GatewayFileSection,
    raw: Option<DriverEntry>,
)
    ensures
        text_at(merged_table(kind, gateway, raw), "socket_path"@) == text_at(
            own_table(raw),
            "socket_path"@,
        ),
{
    let key = "socket_path"@;
    let own = own_table(raw);
    let keys = inherited_keys(kind);
    if own.dom().contains(key) {
        lemma_own_settings_win(own, gateway, keys, key);
    } else if merged_table(kind, gateway, raw).dom().contains(key) {
        lemma_nothing_else_is_inherited(own, gateway, keys, key);
        let i = choose|i: int|
            0 <= i < keys.len() && #[trigger] keys[i].name() == key && gateway.value(keys[i]) is Some;
        lemma_no_key_is_the_socket(keys[i]);
    }
}

proof fn lemma_no_key_is_the_socket(key: InheritedKey)
    ensures
        key.name() != "socket_path"@,
{
    reveal_strlit("socket_path");
    reveal_strlit("namespace");
    reveal_strlit("sandbox_namespace");
    reveal_strlit("default_image");
    reveal_strlit("supervisor_image");
    reveal_strlit("client_tls_secret_name");
    reveal_strlit("service_account_name");
    reveal_strlit("host_gateway_ip");
    reveal_strlit("enable_user_namespaces");
    reveal_strlit("sa_token_ttl_secs");
    reveal_strlit("guest_tls_ca");
    reveal_strlit("guest_tls_cert");
    reveal_strlit("guest_tls_key");
    assert("socket_path"@.len() == 11);
    assert(key.name().len() != 11);
}

/// How sandboxes on Kubernetes first come by a token.
#[derive(Debug)]
pub struct KubernetesSaBootstrapConfig {
    pub namespace: String,
    pub service_account_name: String,
    pub workspace_mode: String,
    pub gateway_id: String,
}

impl Default for KubernetesSaBootstrapConfig {
    /// The settings where the file sets none.
    fn default() -> (config: Self)
        ensures
            config.namespace@ == "openshell"@,
            config.service_account_name@ == "default"@,
            config.workspace_mode@ == "shared"@,
            config.gateway_id@ == "openshell"@,
    {
        KubernetesSaBootstrapConfig {
            namespace: "openshell".to_string(),
            service_account_name: "default".to_string(),
            workspace_mode: "shared".to_string(),
            gateway_id: "openshell".to_string(),
        }
    }
}

/// Whether `key` is made of small letters and underscores.
pub open spec fn plain_key(key: Seq<char>) -> bool {
    &&& key.len() > 0
    &&& forall|i: int|
        0 <= i < key.len() ==> (#[trigger] key[i] == '_' || 0x61 <= key[i] as u32 <= 0x7a)
}

/// That a value of some sort is under `key` where a text is expected.
pub open spec fn no_text(sort: Seq<char>, written: Seq<char>, key: Seq<char>) -> Result<
    Seq<char>,
    Seq<char>,
> {
    Err(
        "invalid type: "@ + sort + " `"@ + written + "`, expected a string\nin `"@ + key + "`\n"@,
    )
}

/// Whether `written` is the decimal form of an integer of 64 bits.
pub open spec fn writes_integer(written: Seq<char>) -> bool {
    exists|n: int| i64::MIN <= n <= i64::MAX && written == #[trigger] signed_decimal_of(n)
}

/// Whether `written` is a truth value.
pub open spec fn writes_truth(written: Seq<char>) -> bool {
    written == "true"@ || written == "false"@
}

/// The text that `toml::Table::try_into` reads under `key` from the table that holds the value
/// `written` there, or why it reads none.
pub uninterp spec fn text_read(key: Seq<char>, written: Seq<char>) -> Result<Seq<char>, Seq<char>>;

/// `toml::Table::try_into`, for the table that `toml::from_str` makes of one key and its value, as
/// both are written, into texts by their keys: the text under the key, or why there is none. It
/// depends on the two alone. A number and a truth value are no texts, and the reason says so.
#[verifier::external_body]
fn read_toml_text(key: &str, written: &str) -> (result: Result<String, String>)
    requires
        plain_key(key@),
    ensures
        read_view(result) == text_read(key@, written@),
        writes_integer(written@) ==> read_view(result) == no_text("integer"@, written@, key@),
        writes_truth(written@) ==> read_view(result) == no_text("boolean"@, written@, key@),
{
    let table: toml::Table = match toml::from_str(&format!("{key} = {written}")) {
        Ok(table) => table,
        Err(error) => return Err(error.to_string()),
    };
    let texts: Result<BTreeMap<String, String>, toml::de::Error> = table.try_into();
    match texts {
        Ok(mut texts) => Ok(texts.remove(key).unwrap_or_default()),
        Err(error) => Err(error.to_string()),
    }
}

/// The text that a setting stands for, or why it stands for none; `default` where it is not set.
/// What is neither a text, a number nor a truth value is read by the TOML reader, to which a date
/// is a text.
pub open spec fn setting(
    table: Map<Seq<char>, TomlValue>,
    key: Seq<char>,
    default: Seq<char>,
) -> Result<Seq<char>, Seq<char>> {
    if !table.dom().contains(key) {
        Ok(default)
    } else {
        match table[key] {
            TomlValue::String(s) => Ok(s@),
            TomlValue::Integer(n) => no_text("integer"@, signed_decimal_of(n as int), key),
            TomlValue::Boolean(true) => no_text("boolean"@, "true"@, key),
            TomlValue::Boolean(false) => no_text("boolean"@, "false"@, key),
            TomlValue::Other(written) => text_read(key, written@),
        }
    }
}

fn read_setting(table: &TextMap<TomlValue>, key: &str, default: &str) -> (result: Result<
    String,
    String,
>)
    requires
        plain_key(key@),
    ensures
        read_view(result) == setting(table@, key@, default@),
{
    match table.get(key) {
        Some(TomlValue::String(s)) => Ok(s.clone()),
        Some(TomlValue::Integer(n)) => {
            let written = text::signed_decimal(*n);
            assert(writes_integer(written@));
            read_toml_text(key, written.as_str())
        },
        Some(TomlValue::Boolean(b)) => if *b {
            read_toml_text(key, "true")
        } else {
            read_toml_text(key, "false")
        },
        Some(TomlValue::Other(written)) => read_toml_text(key, written.as_str()),
        None => Ok(default.to_string()),
    }
}

/// What the four settings for Kubernetes come to. Of several that are no texts, the first in the
/// order of their keys is reported.
pub open spec fn bootstraps(
    gateway_id: Result<Seq<char>, Seq<char>>,
    namespace: Result<Seq<char>, Seq<char>>,
    service_account_name: Result<Seq<char>, Seq<char>>,
    workspace_mode: Result<Seq<char>, Seq<char>>,
    result: Result<KubernetesSaBootstrapConfig, DriverConfigError>,
) -> bool {
    match (gateway_id, namespace, service_account_name, workspace_mode) {
        (Ok(id), Ok(namespace), Ok(account), Ok(mode)) => {
            &&& result matches Ok(config)
            &&& config.gateway_id@ == id
            &&& config.namespace@ == namespace
            &&& config.service_account_name@ == account
            &&& config.workspace_mode@ == mode
        },
        _ => {
            &&& result matches Err(DriverConfigError::NotText { reason })
            &&& reason@ == match (gateway_id, namespace, service_account_name) {
                (Err(first), _, _) => first,
                (Ok(_), Err(first), _) => first,
                (Ok(_), Ok(_), Err(first)) => first,
                (Ok(_), Ok(_), Ok(_)) => workspace_mode->Err_0,
            }
        },
    }
}

/// What the four settings for Kubernetes, as they were read, come to.
pub fn bootstrap_from_settings(
    gateway_id: Result<String, String>,
    namespace: Result<String, String>,
    service_account_name: Result<String, String>,
    workspace_mode: Result<String, String>,
) -> (result: Result<KubernetesSaBootstrapConfig, DriverConfigError>)
    ensures
        bootstraps(
            read_view(gateway_id),
            read_view(namespace),
            read_view(service_account_name),
            read_view(workspace_mode),
            result,
        ),
{
    match (gateway_id, namespace, service_account_name, workspace_mode) {
        (Ok(gateway_id), Ok(namespace), Ok(service_account_name), Ok(workspace_mode)) => Ok(
            KubernetesSaBootstrapConfig {
                namespace,
                service_account_name,
                workspace_mode,
                gateway_id,
            },
        ),
        (Err(reason), _, _, _) => Err(DriverConfigError::NotText { reason }),
        (_, Err(reason), _, _) => Err(DriverConfigError::NotText { reason }),
        (_, _, Err(reason), _) => Err(DriverConfigError::NotText { reason }),
        (_, _, _, Err(reason)) => Err(DriverConfigError::NotText { reason }),
    }
}

/// A setting that was read: the text, or why there is none.
pub open spec fn read_view(read: Result<String, String>) -> Result<Seq<char>, Seq<char>> {
    match read {
        Ok(s) => Ok(s@),
        Err(reason) => Err(reason@),
    }
}

proof fn lemma_plain_keys()
    ensures
        plain_key("gateway_id"@),
        plain_key("namespace"@),
        plain_key("service_account_name"@),
        plain_key("workspace_mode"@),
{
    reveal_strlit("gateway_id");
    reveal_strlit("namespace");
    reveal_strlit("service_account_name");
    reveal_strlit("workspace_mode");
}

/// What the file sets for Kubernetes comes to.
pub open spec fn bootstraps_from(
    file: Option<&ConfigFile>,
    result: Result<KubernetesSaBootstrapConfig, DriverConfigError>,
) -> bool {
    match file {
        Some(file) if file.openshell.drivers@.dom().contains("kubernetes"@) => {
            let table = merged_table(
                Some(ComputeDriverKind::Kubernetes),
                file.openshell.gateway,
                entry_of(*file, "kubernetes"@),
            );
            bootstraps(
                setting(table, "gateway_id"@, "openshell"@),
                setting(table, "namespace"@, "openshell"@),
                setting(table, "service_account_name"@, "default"@),
                setting(table, "workspace_mode"@, "shared"@),
                result,
            )
        },
        _ => result == Err::<KubernetesSaBootstrapConfig, DriverConfigError>(
            DriverConfigError::NoKubernetesTable,
        ),
    }
}

/// How sandboxes on Kubernetes first come by a token: the driver's table in the file, which must
/// be there, with the gateway's defaults.
pub fn kubernetes_sa_bootstrap_config(file: Option<&ConfigFile>) -> (result: Result<
    KubernetesSaBootstrapConfig,
    DriverConfigError,
>)
    ensures
        bootstraps_from(file, result),
{
    let file = match file {
        Some(file) => file,
        None => return Err(DriverConfigError::NoKubernetesTable),
    };
    if !file.openshell.drivers.contains_key("kubernetes") {
        return Err(DriverConfigError::NoKubernetesTable);
    }
    let merged = file::driver_table(
        Some(ComputeDriverKind::Kubernetes),
        &file.openshell.gateway,
        file.openshell.drivers.get("kubernetes"),
    );
    proof {
        lemma_plain_keys();
    }
    bootstrap_from_settings(
        read_setting(&merged, "gateway_id", "openshell"),
        read_setting(&merged, "namespace", "openshell"),
        read_setting(&merged, "service_account_name", "default"),
        read_setting(&merged, "workspace_mode", "shared"),
    )
}

/// The table that driver `name` reads its settings from; without a file there is none, and the
/// driver has its defaults.
pub fn driver_config_table(
    context: DriverStartupContext<'_>,
    kind: Option<ComputeDriverKind>,
    name: &str,
) -> (table: Option<TextMap<TomlValue>>)
    ensures
        match context.file {
            Some(file) => table matches Some(merged) && merged@ == merged_table(
                kind,
                file.openshell.gateway,
                entry_of(*file, name@),
            ),
            None => table is None,
        },
{
    match context.file {
        Some(file) => Some(
            file::driver_table(kind, &file.openshell.gateway, file.openshell.drivers.get(name)),
        ),
        None => None,
    }
}

/// The socket of a remote driver is the one that overrides, where there is one; else the text
/// that the driver's own table in the file sets; and else none.
pub proof fn lemma_sockets_are_found(
    context: DriverStartupContext,
    kind: Option<ComputeDriverKind>,
    name: Seq<char>,
)
    ensures
        context.endpoint_overrides@.dom().contains(name) ==> socket_of(context, kind, name)
            == context.endpoint_overrides@[name]@,
        !context.endpoint_overrides@.dom().contains(name) ==> (context.file matches Some(file) ==> (
        file.openshell.drivers@.dom().contains(name) ==> (file.openshell.drivers@[name] matches
            DriverEntry::Table(table) ==> {
            &&& table@.dom().contains("socket_path"@) ==> (table@["socket_path"@] matches
                TomlValue::String(socket) ==> socket_of(context, kind, name) == socket@)
            &&& !table@.dom().contains("socket_path"@) || !(table@["socket_path"@] is String)
                ==> socket_of(context, kind, name).len() == 0
        }))),
        !context.endpoint_overrides@.dom().contains(name) && (context.file matches Some(file) ==> (
        file.openshell.drivers@.dom().contains(name) ==> file.openshell.drivers@[name] is NotATable))
            ==> socket_of(context, kind, name).len() == 0,
{
    if let Some(file) = context.file {
        lemma_socket_is_never_inherited(kind, file.openshell.gateway, entry_of(*file, name));
    }
}

/// A setting for Kubernetes that is a text is that text, one that is not set has its default, and
/// a number or a truth value is refused.
pub proof fn lemma_settings_are_texts(
    table: Map<Seq<char>, TomlValue>,
    key: Seq<char>,
    default: Seq<char>,
)
    ensures
        !table.dom().contains(key) ==> setting(table, key, default) == Ok::<Seq<char>, Seq<char>>(
            default,
        ),
        table.dom().contains(key) ==> (table[key] matches TomlValue::String(s) ==> setting(
            table,
            key,
            default,
        ) == Ok::<Seq<char>, Seq<char>>(s@)),
        table.dom().contains(key) && (table[key] is Integer || table[key] is Boolean) ==> setting(
            table,
            key,
            default,
        ) is Err,
        table.dom().contains(key) ==> (table[key] matches TomlValue::Integer(n) ==> setting(
            table,
            key,
            default,
        ) == Err::<Seq<char>, Seq<char>>(
            "invalid type: "@ + "integer"@ + " `"@ + signed_decimal_of(n as int)
                + "`, expected a string\nin `"@ + key + "`\n"@,
        )),
{
}

/// The four settings for Kubernetes each stand for the part of their name; they are taken only
/// together, and the first that is no text, in the order of their keys, is reported.
pub proof fn lemma_settings_are_taken_together(
    gateway_id: Result<Seq<char>, Seq<char>>,
    namespace: Result<Seq<char>, Seq<char>>,
    service_account_name: Result<Seq<char>, Seq<char>>,
    workspace_mode: Result<Seq<char>, Seq<char>>,
    result: Result<KubernetesSaBootstrapConfig, DriverConfigError>,
)
    requires
        bootstraps(gateway_id, namespace, service_account_name, workspace_mode, result),
    ensures
        result is Ok <==> gateway_id is Ok && namespace is Ok && service_account_name is Ok
            && workspace_mode is Ok,
        result matches Ok(config) ==> {
            &&& gateway_id == Ok::<Seq<char>, Seq<char>>(config.gateway_id@)
            &&& namespace == Ok::<Seq<char>, Seq<char>>(config.namespace@)
            &&& service_account_name == Ok::<Seq<char>, Seq<char>>(config.service_account_name@)
            &&& workspace_mode == Ok::<Seq<char>, Seq<char>>(config.workspace_mode@)
        },
        gateway_id matches Err(why) ==> (result matches Err(DriverConfigError::NotText { reason })
            && reason@ == why),
        gateway_id is Ok ==> (namespace matches Err(why) ==> (result matches Err(
            DriverConfigError::NotText { reason },
        ) && reason@ == why)),
        gateway_id is Ok && namespace is Ok ==> (service_account_name matches Err(why) ==> (
        result matches Err(DriverConfigError::NotText { reason }) && reason@ == why)),
        gateway_id is Ok && namespace is Ok && service_account_name is Ok ==> (
        workspace_mode matches Err(why) ==> (result matches Err(
            DriverConfigError::NotText { reason },
        ) && reason@ == why)),
{
}

/// Whether `value` is the text that the driver's own table sets under `name`, or else the one
/// that the gateway sets, or else the default.
pub open spec fn own_or_inherited(
    own: Map<Seq<char>, TomlValue>,
    name: Seq<char>,
    inherited: Option<String>,
    default: Seq<char>,
    value: Seq<char>,
) -> bool {
    &&& own.dom().contains(name) ==> (own[name] matches TomlValue::String(s) ==> value == s@)
    &&& own.dom().contains(name) ==> !(own[name] is Integer || own[name] is Boolean)
    &&& !own.dom().contains(name) ==> (inherited matches Some(s) ==> value == s@)
    &&& !own.dom().contains(name) && inherited is None ==> value == default
}

/// The settings for Kubernetes are read only where the file has an entry of that name. Each is
/// what the entry sets under its own key; the namespace and the service account are else those of
/// the gateway; and what nothing sets has its default.
pub proof fn lemma_kubernetes_settings_are_found(
    file: Option<&ConfigFile>,
    result: Result<KubernetesSaBootstrapConfig, DriverConfigError>,
)
    requires
        bootstraps_from(file, result),
    ensures
        result == Err::<KubernetesSaBootstrapConfig, DriverConfigError>(
            DriverConfigError::NoKubernetesTable,
        ) <==> file is None || !file->0.openshell.drivers@.dom().contains("kubernetes"@),
        result matches Ok(config) ==> (file matches Some(file) && ({
            let own = own_table(Some(file.openshell.drivers@["kubernetes"@]));
            let gateway = file.openshell.gateway;
            &&& own_or_inherited(own, "gateway_id"@, None, "openshell"@, config.gateway_id@)
            &&& own_or_inherited(
                own,
                "namespace"@,
                gateway.sandbox_namespace,
                "openshell"@,
                config.namespace@,
            )
            &&& own_or_inherited(
                own,
                "service_account_name"@,
                gateway.service_account_name,
                "default"@,
                config.service_account_name@,
            )
            &&& own_or_inherited(own, "workspace_mode"@, None, "shared"@, config.workspace_mode@)
        })),
{
    if let Some(file) = file {
        if file.openshell.drivers@.dom().contains("kubernetes"@) {
            let raw = Some(file.openshell.drivers@["kubernetes"@]);
            let driver = Some(ComputeDriverKind::Kubernetes);
            let gateway = file.openshell.gateway;
            lemma_kubernetes_takes_over_by_name(gateway, raw);
            reveal_strlit("gateway_id");
            reveal_strlit("workspace_mode");
            reveal_strlit("namespace");
            reveal_strlit("sandbox_namespace");
            reveal_strlit("default_image");
            reveal_strlit("supervisor_image");
            reveal_strlit("client_tls_secret_name");
            reveal_strlit("service_account_name");
            reveal_strlit("host_gateway_ip");
            reveal_strlit("enable_user_namespaces");
            reveal_strlit("sa_token_ttl_secs");
            reveal_strlit("guest_tls_ca");
            reveal_strlit("guest_tls_cert");
            reveal_strlit("guest_tls_key");
            assert("workspace_mode"@[0] == 'w' && "guest_tls_cert"@[0] == 'g');
            lemma_other_names_stay(driver, gateway, raw, "gateway_id"@);
            lemma_other_names_stay(driver, gateway, raw, "workspace_mode"@);
        }
    }
}

/// A driver without a socket is named, and a setting that is no text is told with the reason.
pub proof fn lemma_driver_errors_say_what_is_wrong(error: DriverConfigError)
    ensures
        error matches DriverConfigError::NoSocketPath { name } ==> error.words()
            == "remote compute driver '"@ + name@ + "' requires socket_path"@,
        error matches DriverConfigError::NotText { reason } ==> error.words()
            == "invalid Kubernetes ServiceAccount bootstrap config: "@ + reason@,
{
}

/// Guests find at the three paths, in their order, the gateway's authority, its certificate for
/// clients, and the key of that certificate.
pub proof fn lemma_guests_get_the_clients_certificate(
    guest: GuestTlsPaths,
    local: LocalTlsPaths,
    paths: (Seq<char>, Seq<char>, Seq<char>),
)
    requires
        guest.are_of(local),
        guest.stand_at(paths.0, paths.1, paths.2),
    ensures
        paths.0 == local.ca@,
        paths.1 == local.client_cert@,
        paths.2 == local.client_key@,
        paths.0 == guest.ca@,
        paths.1 == guest.cert@,
        paths.2 == guest.key@,
{
}

} // verus!
