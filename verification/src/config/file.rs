//! The tables of the configuration file, and what drivers take over from the gateway's.

use vstd::prelude::*;
use crate::text;
use crate::text::{all_together, decimal_of, trimmed};
use crate::text_map::TextMap;

verus! {

/// Latest version of the schema that is understood.
pub const SCHEMA_VERSION: u32 = 1;

/// A value in a driver's table. A float, a date, an array or a table is carried as it is written in
/// TOML.
#[derive(Debug)]
pub enum TomlValue {
    String(String),
    Integer(i64),
    Boolean(bool),
    Other(String),
}

/// A driver's entry in the file: a table, or something else, which counts as an empty one.
pub enum DriverEntry {
    Table(TextMap<TomlValue>),
    NotATable,
}

/// Root of the configuration file.
pub struct ConfigFile {
    pub openshell: OpenShellRoot,
}

/// The `[openshell]` table.
pub struct OpenShellRoot {
    /// The version of the schema; a later one than [`SCHEMA_VERSION`] is refused.
    pub version: Option<u32>,
    pub gateway: GatewayFileSection,
    pub supervisor: SupervisorFileSection,
    /// The `[openshell.drivers.<name>]` tables.
    pub drivers: TextMap<DriverEntry>,
    /// The `[openshell.credential_drivers.<name>]` tables.
    pub credential_drivers: TextMap<DriverEntry>,
}

/// The `[openshell.gateway]` section; what the file does not set is left to the command line,
/// the environment and the defaults.
#[derive(Debug)]
pub struct GatewayFileSection {
    pub bind_address: Option<String>,
    pub health_bind_address: Option<String>,
    pub metrics_bind_address: Option<String>,
    pub log_level: Option<String>,
    pub compute_drivers: Option<Vec<String>>,
    pub credential_drivers: Option<Vec<String>>,
    pub default_credential_driver: Option<String>,
    pub sandbox_namespace: Option<String>,
    pub ssh_session_ttl_secs: Option<u64>,
    pub grpc_rate_limit_requests: Option<u64>,
    pub grpc_rate_limit_window_seconds: Option<u64>,
    pub server_sans: Option<Vec<String>>,
    pub enable_loopback_service_http: Option<bool>,
    pub exclusive_sandbox_callback: Option<bool>,
    pub attestation_report: Option<AttestationReportFileConfig>,
    pub default_image: Option<String>,
    pub supervisor_image: Option<String>,
    pub client_tls_secret_name: Option<String>,
    pub service_account_name: Option<String>,
    pub host_gateway_ip: Option<String>,
    pub enable_user_namespaces: Option<bool>,
    pub sa_token_ttl_secs: Option<i64>,
    pub guest_tls_ca: Option<String>,
    pub guest_tls_cert: Option<String>,
    pub guest_tls_key: Option<String>,
    pub disable_tls: Option<bool>,
    pub otlp: Option<OtlpConfig>,
    /// Not allowed in the file.
    pub database_url: Option<String>,
}

/// The `[openshell.gateway.attestation_report]` table.
#[derive(Debug)]
pub struct AttestationReportFileConfig {
    pub trustee_url: String,
    pub reference_values_path: String,
    pub as_public_key_path: String,
    pub policy_id: String,
}

/// The policy where the table names none.
pub fn default_attestation_policy_id() -> (id: String)
    ensures
        id@ == "default"@,
{
    "default".to_string()
}

/// The `[openshell.gateway.otlp]` table, whose presence turns tracing export on.
#[derive(Debug)]
pub struct OtlpConfig {
    pub endpoint: String,
    pub service_name: Option<String>,
}

/// The `[openshell.supervisor]` table.
#[derive(Debug)]
pub struct SupervisorFileSection {
    pub middleware: Vec<MiddlewareServiceFileConfig>,
}

/// A `[[openshell.supervisor.middleware]]` table.
#[derive(Debug)]
pub struct MiddlewareServiceFileConfig {
    pub name: String,
    pub grpc_endpoint: String,
    pub tls_ca_cert_path: Option<String>,
    pub audience: Option<String>,
    pub allow_insecure_transport: bool,
    pub max_payload_bytes: u64,
    pub timeout: Option<String>,
}

impl GatewayFileSection {
    /// Whether nothing is set.
    pub open spec fn unset(self) -> bool {
        self == (GatewayFileSection {
            bind_address: None,
            health_bind_address: None,
            metrics_bind_address: None,
            log_level: None,
            compute_drivers: None,
            credential_drivers: None,
            default_credential_driver: None,
            sandbox_namespace: None,
            ssh_session_ttl_secs: None,
            grpc_rate_limit_requests: None,
            grpc_rate_limit_window_seconds: None,
            server_sans: None,
            enable_loopback_service_http: None,
            exclusive_sandbox_callback: None,
            attestation_report: None,
            default_image: None,
            supervisor_image: None,
            client_tls_secret_name: None,
            service_account_name: None,
            host_gateway_ip: None,
            enable_user_namespaces: None,
            sa_token_ttl_secs: None,
            guest_tls_ca: None,
            guest_tls_cert: None,
            guest_tls_key: None,
            disable_tls: None,
            otlp: None,
            database_url: None,
        })
    }
}

impl Default for GatewayFileSection {
    /// The section that sets nothing.
    fn default() -> (section: Self)
        ensures
            section.unset(),
    {
        GatewayFileSection {
            bind_address: None,
            health_bind_address: None,
            metrics_bind_address: None,
            log_level: None,
            compute_drivers: None,
            credential_drivers: None,
            default_credential_driver: None,
            sandbox_namespace: None,
            ssh_session_ttl_secs: None,
            grpc_rate_limit_requests: None,
            grpc_rate_limit_window_seconds: None,
            server_sans: None,
            enable_loopback_service_http: None,
            exclusive_sandbox_callback: None,
            attestation_report: None,
            default_image: None,
            supervisor_image: None,
            client_tls_secret_name: None,
            service_account_name: None,
            host_gateway_ip: None,
            enable_user_namespaces: None,
            sa_token_ttl_secs: None,
            guest_tls_ca: None,
            guest_tls_cert: None,
            guest_tls_key: None,
            disable_tls: None,
            otlp: None,
            database_url: None,
        }
    }
}

impl ConfigFile {
    /// Whether the file sets nothing.
    pub open spec fn empty(self) -> bool {
        &&& self.openshell.version is None
        &&& self.openshell.gateway.unset()
        &&& self.openshell.supervisor.middleware@.len() == 0
        &&& self.openshell.drivers@ == Map::<Seq<char>, DriverEntry>::empty()
        &&& self.openshell.credential_drivers@ == Map::<Seq<char>, DriverEntry>::empty()
    }
}

impl Default for ConfigFile {
    /// The file that sets nothing.
    fn default() -> (file: Self)
        ensures
            file.empty(),
    {
        ConfigFile {
            openshell: OpenShellRoot {
                version: None,
                gateway: GatewayFileSection::default(),
                supervisor: SupervisorFileSection { middleware: Vec::new() },
                drivers: TextMap::new(),
                credential_drivers: TextMap::new(),
            },
        }
    }
}

/// Why a configuration file is refused.
#[derive(Debug)]
pub enum ConfigFileError {
    /// It could not be read.
    Io { path: String, source: String },
    /// It is no TOML, or does not have the schema's form.
    Parse { path: String, source: String },
    /// Its version is not supported.
    UnsupportedVersion { version: u32 },
    /// It holds a value that must not stand in a file.
    SecretInFile { field: String, env: String, cli: String },
    /// It holds a value that is not allowed.
    InvalidValue { field: String, message: String },
    /// A certificate for a middleware could not be read.
    MiddlewareTlsCaRead { name: String, path: String, source: String },
    /// A certificate for a middleware is not valid.
    MiddlewareTlsCaInvalid { name: String, path: String, message: String },
}

impl ConfigFileError {
    /// The error in words.
    pub open spec fn words(self) -> Seq<char> {
        match self {
            ConfigFileError::Io { path, source } => "failed to read gateway config file '"@ + path@
                + "': "@ + source@,
            ConfigFileError::Parse { path, source } => "failed to parse gateway config file '"@
                + path@ + "': "@ + source@,
            ConfigFileError::UnsupportedVersion { version } => "unsupported gateway config version "@
                + decimal_of(version as nat) + "; this build only supports version "@ + decimal_of(
                SCHEMA_VERSION as nat,
            ),
            ConfigFileError::SecretInFile { field, env, cli } => "`"@ + field@
                + "` is not allowed in the gateway config file — set the "@ + env@
                + " env var or pass "@ + cli@ + " on the command line"@,
            ConfigFileError::InvalidValue { field, message } => "invalid gateway config field `"@
                + field@ + "`: "@ + message@,
            ConfigFileError::MiddlewareTlsCaRead { name, path, source } =>
                "failed to read TLS CA certificate for supervisor middleware '"@ + name@ + "' from '"@
                + path@ + "': "@ + source@,
            ConfigFileError::MiddlewareTlsCaInvalid { name, path, message } =>
                "invalid TLS CA certificate for supervisor middleware '"@ + name@ + "' at '"@ + path@
                + "': "@ + message@,
        }
    }

    /// The error in words.
    pub fn describe(&self) -> (s: String)
        ensures
            s@ == self.words(),
    {
        match self {
            ConfigFileError::Io { path, source } => {
                let mut s = all_together("failed to read gateway config file '", path.as_str(), "': ");
                s.append(source.as_str());
                s
            },
            ConfigFileError::Parse { path, source } => {
                let mut s = all_together(
                    "failed to parse gateway config file '",
                    path.as_str(),
                    "': ",
                );
                s.append(source.as_str());
                s
            },
            ConfigFileError::UnsupportedVersion { version } => {
                let mut s = all_together(
                    "unsupported gateway config version ",
                    text::decimal(*version as u64).as_str(),
                    "; this build only supports version ",
                );
                s.append(text::decimal(SCHEMA_VERSION as u64).as_str());
                s
            },
            ConfigFileError::SecretInFile { field, env, cli } => {
                let mut s = all_together(
                    "`",
                    field.as_str(),
                    "` is not allowed in the gateway config file — set the ",
                );
                s.append(env.as_str());
                s.append(" env var or pass ");
                s.append(cli.as_str());
                s.append(" on the command line");
                s
            },
            ConfigFileError::InvalidValue { field, message } => {
                let mut s = all_together("invalid gateway config field `", field.as_str(), "`: ");
                s.append(message.as_str());
                s
            },
            ConfigFileError::MiddlewareTlsCaRead { name, path, source } => {
                let mut s = all_together(
                    "failed to read TLS CA certificate for supervisor middleware '",
                    name.as_str(),
                    "' from '",
                );
                s.append(path.as_str());
                s.append("': ");
                s.append(source.as_str());
                s
            },
            ConfigFileError::MiddlewareTlsCaInvalid { name, path, message } => {
                let mut s = all_together(
                    "invalid TLS CA certificate for supervisor middleware '",
                    name.as_str(),
                    "' at '",
                );
                s.append(path.as_str());
                s.append("': ");
                s.append(message.as_str());
                s
            },
        }
    }
}

/// Whether `error` says that the database URL must not stand in the file.
pub open spec fn secret_error(error: ConfigFileError) -> bool {
    error matches ConfigFileError::SecretInFile { field, env, cli } && {
        &&& field@ == "database_url"@
        &&& env@ == "OPENSHELL_DB_URL"@
        &&& cli@ == "--db-url"@
    }
}

/// Whether `error` says that no credential driver is named.
pub open spec fn no_credential_driver_error(error: ConfigFileError) -> bool {
    error matches ConfigFileError::InvalidValue { field, message } && {
        &&& field@ == "openshell.gateway.credential_drivers"@
        &&& message@
            == "omit the field to use default encrypted gateway credential storage, or specify exactly one external credential driver"@
    }
}

/// What loading a file comes to, once it was parsed.
pub open spec fn validates(file: ConfigFile, result: Result<ConfigFile, ConfigFileError>) -> bool {
    let root = file.openshell;
    if root.version matches Some(version) && version > SCHEMA_VERSION {
        result == Err::<ConfigFile, ConfigFileError>(
            ConfigFileError::UnsupportedVersion { version: root.version->Some_0 },
        )
    } else if root.gateway.database_url is Some {
        result matches Err(error) && secret_error(error)
    } else if root.gateway.credential_drivers matches Some(drivers) && drivers@.len() == 0 {
        result matches Err(error) && no_credential_driver_error(error)
    } else {
        result == Ok::<ConfigFile, ConfigFileError>(file)
    }
}

/// Checks a parsed file: its version, that it holds no database URL, and that it does not name
/// an empty list of credential drivers.
pub fn validate(file: ConfigFile) -> (result: Result<ConfigFile, ConfigFileError>)
    ensures
        validates(file, result),
{
    if let Some(version) = file.openshell.version {
        if version > SCHEMA_VERSION {
            return Err(ConfigFileError::UnsupportedVersion { version });
        }
    }
    if file.openshell.gateway.database_url.is_some() {
        return Err(
            ConfigFileError::SecretInFile {
                field: "database_url".to_string(),
                env: "OPENSHELL_DB_URL".to_string(),
                cli: "--db-url".to_string(),
            },
        );
    }
    if let Some(drivers) = &file.openshell.gateway.credential_drivers {
        if drivers.len() == 0 {
            return Err(
                ConfigFileError::InvalidValue {
                    field: "openshell.gateway.credential_drivers".to_string(),
                    message:
                        "omit the field to use default encrypted gateway credential storage, or specify exactly one external credential driver".to_string(),
                },
            );
        }
    }
    Ok(file)
}

/// What becomes of the file at `path` whose contents were read, and parsed, as given.
pub open spec fn loads(
    path: Seq<char>,
    contents: Result<String, String>,
    parsed: Result<ConfigFile, String>,
    result: Result<ConfigFile, ConfigFileError>,
) -> bool {
    match contents {
        Err(source) => result matches Err(ConfigFileError::Io { path: p, source: s }) && p@
            == path && s == source,
        Ok(text) => if trimmed(text@).len() == 0 {
            result matches Ok(file) && file.empty()
        } else {
            match parsed {
                Err(source) => result matches Err(ConfigFileError::Parse { path: p, source: s })
                    && p@ == path && s == source,
                Ok(file) => validates(file, result),
            }
        },
    }
}

/// Loads a file, given what reading its contents gave, and what parsing them gives where they
/// are not blank. A blank file sets nothing.
pub fn load(
    path: &str,
    contents: Result<String, String>,
    parsed: Result<ConfigFile, String>,
) -> (result: Result<ConfigFile, ConfigFileError>)
    ensures
        loads(path@, contents, parsed, result),
{
    match contents {
        Err(source) => Err(ConfigFileError::Io { path: path.to_string(), source }),
        Ok(contents) => {
            if text::trim(contents.as_str()).is_empty() {
                return Ok(ConfigFile::default());
            }
            match parsed {
                Err(source) => Err(ConfigFileError::Parse { path: path.to_string(), source }),
                Ok(file) => validate(file),
            }
        },
    }
}

/// The compute drivers that are built in.
#[derive(Debug, Clone, Copy, PartialEq, Eq, Structural)]
pub enum ComputeDriverKind {
    Kubernetes,
    Docker,
    Podman,
    Vm,
}

/// A setting that drivers take over from the gateway.
#[derive(Debug, Clone, Copy, PartialEq, Eq, Structural)]
pub enum InheritedKey {
    Namespace,
    SandboxNamespace,
    DefaultImage,
    SupervisorImage,
    ClientTlsSecretName,
    ServiceAccountName,
    HostGatewayIp,
    EnableUserNamespaces,
    SaTokenTtlSecs,
    GuestTlsCa,
    GuestTlsCert,
    GuestTlsKey,
}

impl InheritedKey {
    /// The key in the driver's table.
    pub open spec fn name(self) -> Seq<char> {
        match self {
            InheritedKey::Namespace => "namespace"@,
            InheritedKey::SandboxNamespace => "sandbox_namespace"@,
            InheritedKey::DefaultImage => "default_image"@,
            InheritedKey::SupervisorImage => "supervisor_image"@,
            InheritedKey::ClientTlsSecretName => "client_tls_secret_name"@,
            InheritedKey::ServiceAccountName => "service_account_name"@,
            InheritedKey::HostGatewayIp => "host_gateway_ip"@,
            InheritedKey::EnableUserNamespaces => "enable_user_namespaces"@,
            InheritedKey::SaTokenTtlSecs => "sa_token_ttl_secs"@,
            InheritedKey::GuestTlsCa => "guest_tls_ca"@,
            InheritedKey::GuestTlsCert => "guest_tls_cert"@,
            InheritedKey::GuestTlsKey => "guest_tls_key"@,
        }
    }

    pub fn as_str(self) -> (name: &'static str)
        ensures
            name@ == self.name(),
    {
        match self {
            InheritedKey::Namespace => "namespace",
            InheritedKey::SandboxNamespace => "sandbox_namespace",
            InheritedKey::DefaultImage => "default_image",
            InheritedKey::SupervisorImage => "supervisor_image",
            InheritedKey::ClientTlsSecretName => "client_tls_secret_name",
            InheritedKey::ServiceAccountName => "service_account_name",
            InheritedKey::HostGatewayIp => "host_gateway_ip",
            InheritedKey::EnableUserNamespaces => "enable_user_namespaces",
            InheritedKey::SaTokenTtlSecs => "sa_token_ttl_secs",
            InheritedKey::GuestTlsCa => "guest_tls_ca",
            InheritedKey::GuestTlsCert => "guest_tls_cert",
            InheritedKey::GuestTlsKey => "guest_tls_key",
        }
    }
}

/// What a driver takes over from the gateway; a driver that is not built in takes nothing.
pub open spec fn inherited_keys(driver: Option<ComputeDriverKind>) -> Seq<InheritedKey> {
    match driver {
        Some(ComputeDriverKind::Kubernetes) => seq![
            InheritedKey::Namespace,
            InheritedKey::DefaultImage,
            InheritedKey::SupervisorImage,
            InheritedKey::ClientTlsSecretName,
            InheritedKey::ServiceAccountName,
            InheritedKey::HostGatewayIp,
            InheritedKey::EnableUserNamespaces,
            InheritedKey::SaTokenTtlSecs,
        ],
        Some(ComputeDriverKind::Docker) => seq![
            InheritedKey::SandboxNamespace,
            InheritedKey::DefaultImage,
            InheritedKey::SupervisorImage,
            InheritedKey::HostGatewayIp,
            InheritedKey::GuestTlsCa,
            InheritedKey::GuestTlsCert,
            InheritedKey::GuestTlsKey,
        ],
        Some(ComputeDriverKind::Podman) => seq![
            InheritedKey::DefaultImage,
            InheritedKey::SupervisorImage,
            InheritedKey::HostGatewayIp,
            InheritedKey::GuestTlsCa,
            InheritedKey::GuestTlsCert,
            InheritedKey::GuestTlsKey,
        ],
        Some(ComputeDriverKind::Vm) => seq![
            InheritedKey::DefaultImage,
            InheritedKey::GuestTlsCa,
            InheritedKey::GuestTlsCert,
            InheritedKey::GuestTlsKey,
        ],
        None => Seq::empty(),
    }
}

/// What a driver takes over from the gateway.
pub fn inheritable_keys(driver: Option<ComputeDriverKind>) -> (keys: Vec<InheritedKey>)
    ensures
        keys@ == inherited_keys(driver),
{
    let mut keys: Vec<InheritedKey> = Vec::new();
    match driver {
        Some(ComputeDriverKind::Kubernetes) => {
            keys.push(InheritedKey::Namespace);
            keys.push(InheritedKey::DefaultImage);
            keys.push(InheritedKey::SupervisorImage);
            keys.push(InheritedKey::ClientTlsSecretName);
            keys.push(InheritedKey::ServiceAccountName);
            keys.push(InheritedKey::HostGatewayIp);
            keys.push(InheritedKey::EnableUserNamespaces);
            keys.push(InheritedKey::SaTokenTtlSecs);
        },
        Some(ComputeDriverKind::Docker) => {
            keys.push(InheritedKey::SandboxNamespace);
            keys.push(InheritedKey::DefaultImage);
            keys.push(InheritedKey::SupervisorImage);
            keys.push(InheritedKey::HostGatewayIp);
            keys.push(InheritedKey::GuestTlsCa);
            keys.push(InheritedKey::GuestTlsCert);
            keys.push(InheritedKey::GuestTlsKey);
        },
        Some(ComputeDriverKind::Podman) => {
            keys.push(InheritedKey::DefaultImage);
            keys.push(InheritedKey::SupervisorImage);
            keys.push(InheritedKey::HostGatewayIp);
            keys.push(InheritedKey::GuestTlsCa);
            keys.push(InheritedKey::GuestTlsCert);
            keys.push(InheritedKey::GuestTlsKey);
        },
        Some(ComputeDriverKind::Vm) => {
            keys.push(InheritedKey::DefaultImage);
            keys.push(InheritedKey::GuestTlsCa);
            keys.push(InheritedKey::GuestTlsCert);
            keys.push(InheritedKey::GuestTlsKey);
        },
        None => {},
    }
    assert(keys@ =~= inherited_keys(driver));
    keys
}

/// A text as a value, where it is there.
pub open spec fn text_value(s: Option<String>) -> Option<TomlValue> {
    match s {
        Some(t) => Some(TomlValue::String(t)),
        None => None,
    }
}

fn string_value(s: &Option<String>) -> (value: Option<TomlValue>)
    ensures
        value == text_value(*s),
{
    match s {
        Some(t) => Some(TomlValue::String(t.clone())),
        None => None,
    }
}

impl GatewayFileSection {
    /// What the gateway's section sets for a key.
    pub open spec fn value(self, key: InheritedKey) -> Option<TomlValue> {
        match key {
            InheritedKey::Namespace | InheritedKey::SandboxNamespace => text_value(
                self.sandbox_namespace,
            ),
            InheritedKey::DefaultImage => text_value(self.default_image),
            InheritedKey::SupervisorImage => text_value(self.supervisor_image),
            InheritedKey::ClientTlsSecretName => text_value(self.client_tls_secret_name),
            InheritedKey::ServiceAccountName => text_value(self.service_account_name),
            InheritedKey::HostGatewayIp => text_value(self.host_gateway_ip),
            InheritedKey::EnableUserNamespaces => match self.enable_user_namespaces {
                Some(b) => Some(TomlValue::Boolean(b)),
                None => None,
            },
            InheritedKey::SaTokenTtlSecs => match self.sa_token_ttl_secs {
                Some(n) => Some(TomlValue::Integer(n)),
                None => None,
            },
            InheritedKey::GuestTlsCa => text_value(self.guest_tls_ca),
            InheritedKey::GuestTlsCert => text_value(self.guest_tls_cert),
            InheritedKey::GuestTlsKey => text_value(self.guest_tls_key),
        }
    }
}

/// What the gateway's section sets for a key.
pub fn gateway_inherited_value(gateway: &GatewayFileSection, key: InheritedKey) -> (value: Option<
    TomlValue,
>)
    ensures
        value == gateway.value(key),
{
    match key {
        InheritedKey::Namespace | InheritedKey::SandboxNamespace => string_value(
            &gateway.sandbox_namespace,
        ),
        InheritedKey::DefaultImage => string_value(&gateway.default_image),
        InheritedKey::SupervisorImage => string_value(&gateway.supervisor_image),
        InheritedKey::ClientTlsSecretName => string_value(&gateway.client_tls_secret_name),
        InheritedKey::ServiceAccountName => string_value(&gateway.service_account_name),
        InheritedKey::HostGatewayIp => string_value(&gateway.host_gateway_ip),
        InheritedKey::EnableUserNamespaces => match gateway.enable_user_namespaces {
            Some(b) => Some(TomlValue::Boolean(b)),
            None => None,
        },
        InheritedKey::SaTokenTtlSecs => match gateway.sa_token_ttl_secs {
            Some(n) => Some(TomlValue::Integer(n)),
            None => None,
        },
        InheritedKey::GuestTlsCa => string_value(&gateway.guest_tls_ca),
        InheritedKey::GuestTlsCert => string_value(&gateway.guest_tls_cert),
        InheritedKey::GuestTlsKey => string_value(&gateway.guest_tls_key),
    }
}

fn copy_value(value: &TomlValue) -> (copy: TomlValue)
    ensures
        copy == *value,
{
    match value {
        TomlValue::String(s) => TomlValue::String(s.clone()),
        TomlValue::Integer(n) => TomlValue::Integer(*n),
        TomlValue::Boolean(b) => TomlValue::Boolean(*b),
        TomlValue::Other(written) => TomlValue::Other(written.clone()),
    }
}

fn copy_table(table: &TextMap<TomlValue>) -> (copy: TextMap<TomlValue>)
    ensures
        copy@ == table@,
{
    let mut copy: TextMap<TomlValue> = TextMap::new();
    let n: usize = table.len();
    let mut i: usize = 0;
    while i < n
        invariant
            i <= n,
            n == table.keys().len(),
            forall|k: Seq<char>| table@.dom().contains(k) <==> #[trigger] table.keys().contains(k),
            forall|k: Seq<char>| #[trigger]
                copy@.dom().contains(k) <==> exists|j: int| 0 <= j < i && table.keys()[j] == k,
            forall|k: Seq<char>| #[trigger]
                copy@.dom().contains(k) ==> table@.dom().contains(k) && copy@[k] == table@[k],
        decreases n - i,
    {
        let key = table.key_at(i).clone();
        let value = copy_value(table.value_at(i));
        copy.insert(key, value);
        i = i + 1;
    }
    proof {
        assert forall|k: Seq<char>| table@.dom().contains(k) implies copy@.dom().contains(k) by {
            assert(table.keys().contains(k));
            let j = table.keys().index_of(k);
            assert(table.keys()[j] == k);
        }
        assert(copy@ =~= table@);
    }
    copy
}

/// `table` with what the gateway sets for `keys`, where the table does not set it itself.
pub open spec fn overlaid(
    table: Map<Seq<char>, TomlValue>,
    gateway: GatewayFileSection,
    keys: Seq<InheritedKey>,
) -> Map<Seq<char>, TomlValue>
    decreases keys.len(),
{
    if keys.len() == 0 {
        table
    } else {
        let before = overlaid(table, gateway, keys.drop_last());
        let key = keys.last();
        match gateway.value(key) {
            Some(value) => if before.dom().contains(key.name()) {
                before
            } else {
                before.insert(key.name(), value)
            },
            None => before,
        }
    }
}

/// The table that a driver's entry gives.
pub open spec fn own_table(raw: Option<DriverEntry>) -> Map<Seq<char>, TomlValue> {
    match raw {
        Some(DriverEntry::Table(table)) => table@,
        _ => Map::empty(),
    }
}

/// A driver's table: its own entry, with the gateway's defaults for what the driver takes over.
pub open spec fn merged_table(
    driver: Option<ComputeDriverKind>,
    gateway: GatewayFileSection,
    raw: Option<DriverEntry>,
) -> Map<Seq<char>, TomlValue> {
    overlaid(own_table(raw), gateway, inherited_keys(driver))
}

/// A driver's table: its own entry, with the gateway's defaults for what the driver takes over.
pub fn driver_table(
    driver: Option<ComputeDriverKind>,
    gateway: &GatewayFileSection,
    raw: Option<&DriverEntry>,
) -> (merged: TextMap<TomlValue>)
    ensures
        merged@ == merged_table(
            driver,
            *gateway,
            match raw {
                Some(entry) => Some(*entry),
                None => None,
            },
        ),
{
    let mut merged = match raw {
        Some(DriverEntry::Table(table)) => copy_table(table),
        _ => TextMap::new(),
    };
    let ghost own = merged@;
    let keys = inheritable_keys(driver);
    let n: usize = keys.len();
    let mut i: usize = 0;
    assert(keys@.take(0) =~= Seq::empty());
    while i < n
        invariant
            i <= n,
            n == keys@.len(),
            merged@ == overlaid(own, *gateway, keys@.take(i as int)),
        decreases n - i,
    {
        let key = keys[i];
        assert(keys@.take(i as int + 1).drop_last() =~= keys@.take(i as int));
        if !merged.contains_key(key.as_str()) {
            if let Some(value) = gateway_inherited_value(gateway, key) {
                merged.insert(key.as_str().to_string(), value);
            }
        }
        i = i + 1;
    }
    assert(keys@.take(n as int) =~= keys@);
    merged
}

/// A driver's own settings win over the gateway's.
pub proof fn lemma_own_settings_win(
    table: Map<Seq<char>, TomlValue>,
    gateway: GatewayFileSection,
    keys: Seq<InheritedKey>,
    name: Seq<char>,
)
    requires
        table.dom().contains(name),
    ensures
        overlaid(table, gateway, keys).dom().contains(name),
        overlaid(table, gateway, keys)[name] == table[name],
    decreases keys.len(),
{
    if keys.len() > 0 {
        lemma_own_settings_win(table, gateway, keys.drop_last(), name);
    }
}

/// A driver's table holds nothing but its own settings and those that it takes over.
pub proof fn lemma_nothing_else_is_inherited(
    table: Map<Seq<char>, TomlValue>,
    gateway: GatewayFileSection,
    keys: Seq<InheritedKey>,
    name: Seq<char>,
)
    requires
        overlaid(table, gateway, keys).dom().contains(name),
        !table.dom().contains(name),
    ensures
        exists|i: int| 0 <= i < keys.len() && #[trigger] keys[i].name() == name && gateway.value(
            keys[i],
        ) is Some,
    decreases keys.len(),
{
    if keys.len() > 0 {
        let before = keys.drop_last();
        if overlaid(table, gateway, before).dom().contains(name) {
            lemma_nothing_else_is_inherited(table, gateway, before, name);
            let i = choose|i: int|
                0 <= i < before.len() && #[trigger] before[i].name() == name && gateway.value(
                    before[i],
                ) is Some;
            assert(keys[i].name() == name);
        } else {
            assert(keys[keys.len() - 1].name() == name);
        }
    }
}

/// A setting that a driver takes over is in its table wherever the gateway sets it.
pub proof fn lemma_inherited_settings_are_there(
    table: Map<Seq<char>, TomlValue>,
    gateway: GatewayFileSection,
    keys: Seq<InheritedKey>,
    i: int,
)
    requires
        0 <= i < keys.len(),
        gateway.value(keys[i]) is Some,
    ensures
        overlaid(table, gateway, keys).dom().contains(keys[i].name()),
    decreases keys.len(),
{
    if i < keys.len() - 1 {
        lemma_inherited_settings_are_there(table, gateway, keys.drop_last(), i);
    }
}

/// A driver that is not built in takes nothing over.
pub proof fn lemma_remote_drivers_inherit_nothing(
    gateway: GatewayFileSection,
    raw: Option<DriverEntry>,
)
    ensures
        merged_table(None, gateway, raw) == own_table(raw),
{
}

/// Whether a driver's table holds under `name` what its own entry sets, or else the text that
/// the gateway sets, and nothing where neither does.
pub open spec fn falls_back_to_text(
    own: Map<Seq<char>, TomlValue>,
    merged: Map<Seq<char>, TomlValue>,
    name: Seq<char>,
    field: Option<String>,
) -> bool {
    &&& merged.dom().contains(name) <==> own.dom().contains(name) || field is Some
    &&& own.dom().contains(name) ==> merged[name] == own[name]
    &&& !own.dom().contains(name) && field is Some ==> merged[name] == TomlValue::String(field->0)
}

/// Whether a driver's table holds under `name` what its own entry sets, and nothing else.
pub open spec fn own_alone(
    own: Map<Seq<char>, TomlValue>,
    merged: Map<Seq<char>, TomlValue>,
    name: Seq<char>,
) -> bool {
    &&& merged.dom().contains(name) <==> own.dom().contains(name)
    &&& own.dom().contains(name) ==> merged[name] == own[name]
}

/// No two settings have the same name.
proof fn lemma_names_differ(a: InheritedKey, b: InheritedKey)
    requires
        a.name() == b.name(),
    ensures
        a == b,
{
    reveal_strlit("namespace");
    reveal_strlit("sandbox_namespace");
    reveal_strlit("default_image");
    reveal_strlit("supervisor_image");
    reveal_strlit("client_tls_secret_name");
    reveal_strlit("service_account_name");
    reveal_strlit("host_gateway_ip");
    reveal_strlit("enable_user_namespaces");
    reveal_strlit("sa_token_ttl_secs");
    reveal_strlit("guest_tls_ca");
    reveal_strlit("guest_tls_cert");
    reveal_strlit("guest_tls_key");
    assert("namespace"@.len() == 9 && "namespace"@[0] == 'n' && "namespace"@[2] == 'm');
    assert("sandbox_namespace"@.len() == 17 && "sandbox_namespace"@[0] == 's' && "sandbox_namespace"@[2] == 'n');
    assert("default_image"@.len() == 13 && "default_image"@[0] == 'd' && "default_image"@[2] == 'f');
    assert("supervisor_image"@.len() == 16 && "supervisor_image"@[0] == 's' && "supervisor_image"@[2] == 'p');
    assert("client_tls_secret_name"@.len() == 22 && "client_tls_secret_name"@[0] == 'c' && "client_tls_secret_name"@[2] == 'i');
    assert("service_account_name"@.len() == 20 && "service_account_name"@[0] == 's' && "service_account_name"@[2] == 'r');
    assert("host_gateway_ip"@.len() == 15 && "host_gateway_ip"@[0] == 'h' && "host_gateway_ip"@[2] == 's');
    assert("enable_user_namespaces"@.len() == 22 && "enable_user_namespaces"@[0] == 'e' && "enable_user_namespaces"@[2] == 'a');
    assert("sa_token_ttl_secs"@.len() == 17 && "sa_token_ttl_secs"@[0] == 's' && "sa_token_ttl_secs"@[2] == '_');
    assert("guest_tls_ca"@.len() == 12 && "guest_tls_ca"@[0] == 'g' && "guest_tls_ca"@[2] == 'e');
    assert("guest_tls_cert"@.len() == 14 && "guest_tls_cert"@[0] == 'g' && "guest_tls_cert"@[2] == 'e');
    assert("guest_tls_key"@.len() == 13 && "guest_tls_key"@[0] == 'g' && "guest_tls_key"@[2] == 'e');
}

/// What stands under the name of a setting that is taken over once.
proof fn lemma_overlaid_at(
    table: Map<Seq<char>, TomlValue>,
    gateway: GatewayFileSection,
    keys: Seq<InheritedKey>,
    key: InheritedKey,
)
    ensures
        ({
            let merged = overlaid(table, gateway, keys);
            let name = key.name();
            let value = gateway.value(key);
            &&& !keys.contains(key) ==> own_alone(table, merged, name)
            &&& keys.contains(key) ==> {
                &&& merged.dom().contains(name) <==> table.dom().contains(name) || value is Some
                &&& table.dom().contains(name) ==> merged[name] == table[name]
                &&& !table.dom().contains(name) && value is Some ==> merged[name] == value->0
            }
        }),
    decreases keys.len(),
{
    if keys.len() > 0 {
        let before = keys.drop_last();
        lemma_overlaid_at(table, gateway, before, key);
        if keys.last().name() == key.name() {
            lemma_names_differ(keys.last(), key);
            assert(keys[keys.len() - 1] == key);
        } else if keys.contains(key) {
            let i = choose|i: int| 0 <= i < keys.len() && keys[i] == key;
            assert(before[i] == key);
        }
        if before.contains(key) {
            let i = choose|i: int| 0 <= i < before.len() && before[i] == key;
            assert(keys[i] == key);
        }
    }
}

/// What a driver's entry itself sets: the table where it is one, and nothing otherwise.
pub proof fn lemma_entries_are_tables(raw: Option<DriverEntry>)
    ensures
        raw matches Some(DriverEntry::Table(table)) ==> own_table(raw) == table@,
        !(raw matches Some(DriverEntry::Table(_))) ==> own_table(raw) == Map::<
            Seq<char>,
            TomlValue,
        >::empty(),
{
}

/// In the table of a driver for Kubernetes, each setting that it takes over and does not set
/// itself is what the gateway's field of that name holds.
pub proof fn lemma_kubernetes_takes_over_by_name(gateway: GatewayFileSection, raw: Option<DriverEntry>)
    ensures
        ({
            let own = own_table(raw);
            let merged = merged_table(Some(ComputeDriverKind::Kubernetes), gateway, raw);
            &&& falls_back_to_text(own, merged, "namespace"@, gateway.sandbox_namespace)
            &&& falls_back_to_text(own, merged, "default_image"@, gateway.default_image)
            &&& falls_back_to_text(own, merged, "supervisor_image"@, gateway.supervisor_image)
            &&& falls_back_to_text(
                own,
                merged,
                "client_tls_secret_name"@,
                gateway.client_tls_secret_name,
            )
            &&& falls_back_to_text(
                own,
                merged,
                "service_account_name"@,
                gateway.service_account_name,
            )
            &&& falls_back_to_text(own, merged, "host_gateway_ip"@, gateway.host_gateway_ip)
            &&& merged.dom().contains("enable_user_namespaces"@) <==> own.dom().contains(
                "enable_user_namespaces"@,
            ) || gateway.enable_user_namespaces is Some
            &&& !own.dom().contains("enable_user_namespaces"@)
                && gateway.enable_user_namespaces is Some ==> merged["enable_user_namespaces"@]
                == TomlValue::Boolean(gateway.enable_user_namespaces->0)
            &&& merged.dom().contains("sa_token_ttl_secs"@) <==> own.dom().contains(
                "sa_token_ttl_secs"@,
            ) || gateway.sa_token_ttl_secs is Some
            &&& !own.dom().contains("sa_token_ttl_secs"@) && gateway.sa_token_ttl_secs is Some
                ==> merged["sa_token_ttl_secs"@] == TomlValue::Integer(gateway.sa_token_ttl_secs->0)
            &&& own_alone(own, merged, "sandbox_namespace"@)
            &&& own_alone(own, merged, "guest_tls_ca"@)
            &&& own_alone(own, merged, "guest_tls_cert"@)
            &&& own_alone(own, merged, "guest_tls_key"@)
        }),
{
    lemma_every_setting(Some(ComputeDriverKind::Kubernetes), gateway, raw);
    let keys = inherited_keys(Some(ComputeDriverKind::Kubernetes));
    assert(keys[0].name() == "namespace"@ && keys.contains(keys[0]));
    assert(keys[1].name() == "default_image"@ && keys.contains(keys[1]));
    assert(keys[2].name() == "supervisor_image"@ && keys.contains(keys[2]));
    assert(keys[3].name() == "client_tls_secret_name"@ && keys.contains(keys[3]));
    assert(keys[4].name() == "service_account_name"@ && keys.contains(keys[4]));
    assert(keys[5].name() == "host_gateway_ip"@ && keys.contains(keys[5]));
    assert(keys[6].name() == "enable_user_namespaces"@ && keys.contains(keys[6]));
    assert(keys[7].name() == "sa_token_ttl_secs"@ && keys.contains(keys[7]));
    assert(InheritedKey::SandboxNamespace.name() == "sandbox_namespace"@);
    assert(InheritedKey::GuestTlsCa.name() == "guest_tls_ca"@);
    assert(InheritedKey::GuestTlsCert.name() == "guest_tls_cert"@);
    assert(InheritedKey::GuestTlsKey.name() == "guest_tls_key"@);
}

/// In the table of a driver for Docker, each setting that it takes over and does not set itself
/// is what the gateway's field of that name holds.
pub proof fn lemma_docker_takes_over_by_name(gateway: GatewayFileSection, raw: Option<DriverEntry>)
    ensures
        ({
            let own = own_table(raw);
            let merged = merged_table(Some(ComputeDriverKind::Docker), gateway, raw);
            &&& falls_back_to_text(own, merged, "sandbox_namespace"@, gateway.sandbox_namespace)
            &&& falls_back_to_text(own, merged, "default_image"@, gateway.default_image)
            &&& falls_back_to_text(own, merged, "supervisor_image"@, gateway.supervisor_image)
            &&& falls_back_to_text(own, merged, "host_gateway_ip"@, gateway.host_gateway_ip)
            &&& falls_back_to_text(own, merged, "guest_tls_ca"@, gateway.guest_tls_ca)
            &&& falls_back_to_text(own, merged, "guest_tls_cert"@, gateway.guest_tls_cert)
            &&& falls_back_to_text(own, merged, "guest_tls_key"@, gateway.guest_tls_key)
            &&& own_alone(own, merged, "namespace"@)
            &&& own_alone(own, merged, "client_tls_secret_name"@)
            &&& own_alone(own, merged, "service_account_name"@)
            &&& own_alone(own, merged, "enable_user_namespaces"@)
            &&& own_alone(own, merged, "sa_token_ttl_secs"@)
        }),
{
    lemma_every_setting(Some(ComputeDriverKind::Docker), gateway, raw);
    let keys = inherited_keys(Some(ComputeDriverKind::Docker));
    assert(keys[0].name() == "sandbox_namespace"@ && keys.contains(keys[0]));
    assert(keys[1].name() == "default_image"@ && keys.contains(keys[1]));
    assert(keys[2].name() == "supervisor_image"@ && keys.contains(keys[2]));
    assert(keys[3].name() == "host_gateway_ip"@ && keys.contains(keys[3]));
    assert(keys[4].name() == "guest_tls_ca"@ && keys.contains(keys[4]));
    assert(keys[5].name() == "guest_tls_cert"@ && keys.contains(keys[5]));
    assert(keys[6].name() == "guest_tls_key"@ && keys.contains(keys[6]));
    assert(InheritedKey::Namespace.name() == "namespace"@);
    assert(InheritedKey::ClientTlsSecretName.name() == "client_tls_secret_name"@);
    assert(InheritedKey::ServiceAccountName.name() == "service_account_name"@);
    assert(InheritedKey::EnableUserNamespaces.name() == "enable_user_namespaces"@);
    assert(InheritedKey::SaTokenTtlSecs.name() == "sa_token_ttl_secs"@);
}

/// In the table of a driver for Podman, each setting that it takes over and does not set itself
/// is what the gateway's field of that name holds.
pub proof fn lemma_podman_takes_over_by_name(gateway: GatewayFileSection, raw: Option<DriverEntry>)
    ensures
        ({
            let own = own_table(raw);
            let merged = merged_table(Some(ComputeDriverKind::Podman), gateway, raw);
            &&& falls_back_to_text(own, merged, "default_image"@, gateway.default_image)
            &&& falls_back_to_text(own, merged, "supervisor_image"@, gateway.supervisor_image)
            &&& falls_back_to_text(own, merged, "host_gateway_ip"@, gateway.host_gateway_ip)
            &&& falls_back_to_text(own, merged, "guest_tls_ca"@, gateway.guest_tls_ca)
            &&& falls_back_to_text(own, merged, "guest_tls_cert"@, gateway.guest_tls_cert)
            &&& falls_back_to_text(own, merged, "guest_tls_key"@, gateway.guest_tls_key)
            &&& own_alone(own, merged, "namespace"@)
            &&& own_alone(own, merged, "sandbox_namespace"@)
            &&& own_alone(own, merged, "client_tls_secret_name"@)
            &&& own_alone(own, merged, "service_account_name"@)
            &&& own_alone(own, merged, "enable_user_namespaces"@)
            &&& own_alone(own, merged, "sa_token_ttl_secs"@)
        }),
{
    lemma_every_setting(Some(ComputeDriverKind::Podman), gateway, raw);
    let keys = inherited_keys(Some(ComputeDriverKind::Podman));
    assert(keys[0].name() == "default_image"@ && keys.contains(keys[0]));
    assert(keys[1].name() == "supervisor_image"@ && keys.contains(keys[1]));
    assert(keys[2].name() == "host_gateway_ip"@ && keys.contains(keys[2]));
    assert(keys[3].name() == "guest_tls_ca"@ && keys.contains(keys[3]));
    assert(keys[4].name() == "guest_tls_cert"@ && keys.contains(keys[4]));
    assert(keys[5].name() == "guest_tls_key"@ && keys.contains(keys[5]));
    assert(InheritedKey::Namespace.name() == "namespace"@);
    assert(InheritedKey::SandboxNamespace.name() == "sandbox_namespace"@);
    assert(InheritedKey::ClientTlsSecretName.name() == "client_tls_secret_name"@);
    assert(InheritedKey::ServiceAccountName.name() == "service_account_name"@);
    assert(InheritedKey::EnableUserNamespaces.name() == "enable_user_namespaces"@);
    assert(InheritedKey::SaTokenTtlSecs.name() == "sa_token_ttl_secs"@);
}

/// In the table of a driver for virtual machines, each setting that it takes over and does not
/// set itself is what the gateway's field of that name holds.
pub proof fn lemma_vm_takes_over_by_name(gateway: GatewayFileSection, raw: Option<DriverEntry>)
    ensures
        ({
            let own = own_table(raw);
            let merged = merged_table(Some(ComputeDriverKind::Vm), gateway, raw);
            &&& falls_back_to_text(own, merged, "default_image"@, gateway.default_image)
            &&& falls_back_to_text(own, merged, "guest_tls_ca"@, gateway.guest_tls_ca)
            &&& falls_back_to_text(own, merged, "guest_tls_cert"@, gateway.guest_tls_cert)
            &&& falls_back_to_text(own, merged, "guest_tls_key"@, gateway.guest_tls_key)
            &&& own_alone(own, merged, "namespace"@)
            &&& own_alone(own, merged, "sandbox_namespace"@)
            &&& own_alone(own, merged, "supervisor_image"@)
            &&& own_alone(own, merged, "host_gateway_ip"@)
            &&& own_alone(own, merged, "client_tls_secret_name"@)
            &&& own_alone(own, merged, "service_account_name"@)
            &&& own_alone(own, merged, "enable_user_namespaces"@)
            &&& own_alone(own, merged, "sa_token_ttl_secs"@)
        }),
{
    lemma_every_setting(Some(ComputeDriverKind::Vm), gateway, raw);
    let keys = inherited_keys(Some(ComputeDriverKind::Vm));
    assert(keys[0].name() == "default_image"@ && keys.contains(keys[0]));
    assert(keys[1].name() == "guest_tls_ca"@ && keys.contains(keys[1]));
    assert(keys[2].name() == "guest_tls_cert"@ && keys.contains(keys[2]));
    assert(keys[3].name() == "guest_tls_key"@ && keys.contains(keys[3]));
    assert(InheritedKey::Namespace.name() == "namespace"@);
    assert(InheritedKey::SandboxNamespace.name() == "sandbox_namespace"@);
    assert(InheritedKey::SupervisorImage.name() == "supervisor_image"@);
    assert(InheritedKey::ClientTlsSecretName.name() == "client_tls_secret_name"@);
    assert(InheritedKey::ServiceAccountName.name() == "service_account_name"@);
    assert(InheritedKey::HostGatewayIp.name() == "host_gateway_ip"@);
    assert(InheritedKey::EnableUserNamespaces.name() == "enable_user_namespaces"@);
    assert(InheritedKey::SaTokenTtlSecs.name() == "sa_token_ttl_secs"@);
}

/// What stands under each of the names, by whether the driver takes the setting over.
proof fn lemma_every_setting(
    driver: Option<ComputeDriverKind>,
    gateway: GatewayFileSection,
    raw: Option<DriverEntry>,
)
    ensures
        forall|key: InheritedKey|
            ({
                let own = own_table(raw);
                let merged = merged_table(driver, gateway, raw);
                let name = #[trigger] key.name();
                let value = gateway.value(key);
                &&& !inherited_keys(driver).contains(key) ==> own_alone(own, merged, name)
                &&& inherited_keys(driver).contains(key) ==> {
                    &&& merged.dom().contains(name) <==> own.dom().contains(name) || value is Some
                    &&& own.dom().contains(name) ==> merged[name] == own[name]
                    &&& !own.dom().contains(name) && value is Some ==> merged[name] == value->0
                }
            }),
{
    assert forall|key: InheritedKey|
        ({
            let own = own_table(raw);
            let merged = merged_table(driver, gateway, raw);
            let name = #[trigger] key.name();
            let value = gateway.value(key);
            &&& !inherited_keys(driver).contains(key) ==> own_alone(own, merged, name)
            &&& inherited_keys(driver).contains(key) ==> {
                &&& merged.dom().contains(name) <==> own.dom().contains(name) || value is Some
                &&& own.dom().contains(name) ==> merged[name] == own[name]
                &&& !own.dom().contains(name) && value is Some ==> merged[name] == value->0
            }
        }) by {
        lemma_overlaid_at(own_table(raw), gateway, inherited_keys(driver), key);
    }
}

/// Under any other name than those of the settings that are taken over, a driver's table holds
/// what its own entry sets.
pub proof fn lemma_other_names_stay(
    driver: Option<ComputeDriverKind>,
    gateway: GatewayFileSection,
    raw: Option<DriverEntry>,
    name: Seq<char>,
)
    requires
        name != "namespace"@,
        name != "sandbox_namespace"@,
        name != "default_image"@,
        name != "supervisor_image"@,
        name != "client_tls_secret_name"@,
        name != "service_account_name"@,
        name != "host_gateway_ip"@,
        name != "enable_user_namespaces"@,
        name != "sa_token_ttl_secs"@,
        name != "guest_tls_ca"@,
        name != "guest_tls_cert"@,
        name != "guest_tls_key"@,
    ensures
        own_alone(own_table(raw), merged_table(driver, gateway, raw), name),
{
    let merged = merged_table(driver, gateway, raw);
    if own_table(raw).dom().contains(name) {
        lemma_own_settings_win(own_table(raw), gateway, inherited_keys(driver), name);
    } else if merged.dom().contains(name) {
        lemma_nothing_else_is_inherited(own_table(raw), gateway, inherited_keys(driver), name);
    }
}

/// A parsed file is taken as it is exactly where its version is not later than the first, it
/// holds no database URL, and it does not name an empty list of credential drivers; otherwise
/// the first of these that fails is reported.
pub proof fn lemma_files_in_order_are_taken(
    file: ConfigFile,
    result: Result<ConfigFile, ConfigFileError>,
)
    requires
        validates(file, result),
    ensures
        ({
            let late = file.openshell.version matches Some(version) && version > 1;
            let secret = file.openshell.gateway.database_url is Some;
            let undriven = file.openshell.gateway.credential_drivers matches Some(drivers)
                && drivers@.len() == 0;
            &&& result is Ok <==> !late && !secret && !undriven
            &&& result matches Ok(taken) ==> taken == file
            &&& late ==> result == Err::<ConfigFile, ConfigFileError>(
                ConfigFileError::UnsupportedVersion { version: file.openshell.version->0 },
            )
            &&& !late && secret ==> (result matches Err(
                ConfigFileError::SecretInFile { field, env, cli },
            ) && field@ == "database_url"@ && env@ == "OPENSHELL_DB_URL"@ && cli@ == "--db-url"@)
            &&& !late && !secret && undriven ==> (result matches Err(
                ConfigFileError::InvalidValue { field, .. },
            ) && field@ == "openshell.gateway.credential_drivers"@)
        }),
{
}

/// A file that cannot be read is reported as such, whatever else; one that holds white space
/// alone sets nothing; one that cannot be parsed is reported as such; and any other that is taken
/// is what was parsed, unchanged. An error names the file.
pub proof fn lemma_files_are_loaded(
    path: Seq<char>,
    contents: Result<String, String>,
    parsed: Result<ConfigFile, String>,
    result: Result<ConfigFile, ConfigFileError>,
)
    requires
        loads(path, contents, parsed, result),
    ensures
        contents is Err <==> (result matches Err(error) && error is Io),
        contents matches Ok(text) && (trimmed(text@).len() > 0 && parsed is Err) <==> (
        result matches Err(error) && error is Parse),
        result matches Err(ConfigFileError::Io { path: p, source }) ==> p@ == path && contents
            == Err::<String, String>(source),
        result matches Err(ConfigFileError::Parse { path: p, source }) ==> p@ == path && parsed
            == Err::<ConfigFile, String>(source),
        contents matches Ok(text) ==> (trimmed(text@).len() == 0 ==> (result matches Ok(file)
            && file.empty())),
        contents matches Ok(text) ==> (trimmed(text@).len() > 0 && result is Ok ==> parsed
            == Ok::<ConfigFile, String>(result->Ok_0)),
{
}

/// What is wrong with a file is said with its path and the reason, in this order; with a field,
/// by its name; and a version is named beside the one that is supported.
pub proof fn lemma_file_errors_say_what_is_wrong(error: ConfigFileError)
    ensures
        error matches ConfigFileError::Io { path, source } ==> error.words()
            == "failed to read gateway config file '"@ + path@ + "': "@ + source@,
        error matches ConfigFileError::Parse { path, source } ==> error.words()
            == "failed to parse gateway config file '"@ + path@ + "': "@ + source@,
        error matches ConfigFileError::UnsupportedVersion { version } ==> error.words()
            == "unsupported gateway config version "@ + decimal_of(version as nat)
            + "; this build only supports version "@ + decimal_of(1),
        error matches ConfigFileError::InvalidValue { field, message } ==> error.words()
            == "invalid gateway config field `"@ + field@ + "`: "@ + message@,
        error matches ConfigFileError::MiddlewareTlsCaRead { name, path, source } ==> error.words()
            == "failed to read TLS CA certificate for supervisor middleware '"@ + name@
            + "' from '"@ + path@ + "': "@ + source@,
        error matches ConfigFileError::MiddlewareTlsCaInvalid { name, path, message }
            ==> error.words() == "invalid TLS CA certificate for supervisor middleware '"@ + name@
            + "' at '"@ + path@ + "': "@ + message@,
{
}

/// A driver that is not built in takes nothing over: its table is its own entry.
pub proof fn lemma_other_drivers_take_nothing_over(gateway: GatewayFileSection, raw: Option<DriverEntry>)
    ensures
        raw matches Some(DriverEntry::Table(table)) ==> merged_table(None, gateway, raw) == table@,
        !(raw matches Some(DriverEntry::Table(_))) ==> merged_table(None, gateway, raw)
            == Map::<Seq<char>, TomlValue>::empty(),
{
}

} // verus!
