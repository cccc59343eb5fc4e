use openshell::config::driver::{
    bootstrap_from_settings,
    driver_config_table, kubernetes_sa_bootstrap_config, remote_driver_config_from_context,
    DriverConfigError, DriverStartupContext, GuestTlsPaths, KubernetesSaBootstrapConfig,
    LocalTlsPaths, RemoteDriverConfig,
};
use openshell::config::file::{
    driver_table, gateway_inherited_value, inheritable_keys, load, validate, ComputeDriverKind,
    ConfigFile, ConfigFileError, DriverEntry, GatewayFileSection, InheritedKey,
    MiddlewareServiceFileConfig, TomlValue, SCHEMA_VERSION,
};
use openshell::config::middleware::{
    sanitize_ca_cert_pem, sanitize_sections, PemSection, SupervisorMiddlewareService,
};
use openshell::text_map::TextMap;

fn table(entries: &[(&str, &str)]) -> DriverEntry {
    let mut table = TextMap::new();
    for (key, value) in entries {
        table.insert(key.to_string(), TomlValue::String(value.to_string()));
    }
    DriverEntry::Table(table)
}

fn text<'a>(table: &'a TextMap<TomlValue>, key: &str) -> Option<&'a str> {
    match table.get(key) {
        Some(TomlValue::String(s)) => Some(s),
        _ => None,
    }
}

fn with_driver(name: &str, entries: &[(&str, &str)]) -> ConfigFile {
    let mut file = ConfigFile::default();
    file.openshell.drivers.insert(name.to_string(), table(entries));
    file
}

fn context<'a>(
    file: Option<&'a ConfigFile>,
    endpoint_overrides: &'a TextMap<String>,
) -> DriverStartupContext<'a> {
    DriverStartupContext {
        file,
        guest_tls: None,
        gateway_port: 17670,
        gateway_tls_enabled: false,
        endpoint_overrides,
    }
}

#[test]
fn remote_driver_config_reads_socket_path_from_named_table() {
    let file = with_driver("kyma", &[("socket_path", "/run/openshell/kyma.sock")]);
    let none = TextMap::new();

    let cfg = remote_driver_config_from_context(context(Some(&file), &none), None, "kyma")
        .expect("remote config");

    assert_eq!(cfg.socket_path, "/run/openshell/kyma.sock");
}

#[test]
fn remote_driver_config_ignores_in_process_driver_fields() {
    let mut file = with_driver(
        "kubernetes",
        &[
            ("socket_path", "/run/openshell/kubernetes.sock"),
            ("workspace_mode", "shared"),
            ("service_account_name", "sandbox-sa"),
        ],
    );
    file.openshell.gateway.sandbox_namespace = Some("sandboxes".to_string());
    let none = TextMap::new();

    let cfg = remote_driver_config_from_context(
        context(Some(&file), &none),
        Some(ComputeDriverKind::Kubernetes),
        "kubernetes",
    )
    .expect("remote config");
    assert_eq!(cfg.socket_path, "/run/openshell/kubernetes.sock");
}

#[test]
fn kubernetes_sa_bootstrap_uses_public_gateway_config() {
    let mut file = with_driver(
        "kubernetes",
        &[
            ("socket_path", "/run/openshell/kubernetes.sock"),
            ("workspace_mode", "managed"),
            ("gateway_id", "gateway-a"),
            ("service_account_name", "sandbox-sa"),
        ],
    );
    file.openshell.gateway.sandbox_namespace = Some("sandboxes".to_string());

    let cfg = kubernetes_sa_bootstrap_config(Some(&file)).expect("bootstrap config");
    assert_eq!(cfg.namespace, "sandboxes");
    assert_eq!(cfg.workspace_mode, "managed");
    assert_eq!(cfg.gateway_id, "gateway-a");
    assert_eq!(cfg.service_account_name, "sandbox-sa");
}

#[test]
fn remote_driver_config_uses_endpoint_override_without_file() {
    let mut endpoint_overrides = TextMap::new();
    endpoint_overrides.insert("kyma".to_string(), "/tmp/kyma.sock".to_string());

    let cfg = remote_driver_config_from_context(context(None, &endpoint_overrides), None, "kyma")
        .expect("remote config");

    assert_eq!(cfg.socket_path, "/tmp/kyma.sock");
}

#[test]
fn remote_driver_config_endpoint_override_wins_over_file() {
    let file = with_driver("kyma", &[("socket_path", "/run/openshell/kyma.sock")]);
    let mut endpoint_overrides = TextMap::new();
    endpoint_overrides.insert("kyma".to_string(), "/tmp/kyma.sock".to_string());

    let cfg =
        remote_driver_config_from_context(context(Some(&file), &endpoint_overrides), None, "kyma")
            .expect("remote config");

    assert_eq!(cfg.socket_path, "/tmp/kyma.sock");
}

#[test]
fn remote_driver_config_rejects_missing_socket_path() {
    let none = TextMap::new();
    let err = remote_driver_config_from_context(context(None, &none), None, "kyma").unwrap_err();

    assert!(err
        .describe()
        .contains("remote compute driver 'kyma' requires socket_path"));
}

#[test]
fn bootstrap_settings_have_defaults() {
    let file = with_driver("kubernetes", &[]);
    let cfg = kubernetes_sa_bootstrap_config(Some(&file)).expect("bootstrap config");
    let defaults = KubernetesSaBootstrapConfig::default();
    assert_eq!(cfg.namespace, "openshell");
    assert_eq!(cfg.namespace, defaults.namespace);
    assert_eq!(cfg.service_account_name, "default");
    assert_eq!(cfg.service_account_name, defaults.service_account_name);
    assert_eq!(cfg.workspace_mode, "shared");
    assert_eq!(cfg.gateway_id, "openshell");
}

#[test]
fn bootstrap_settings_must_be_there_and_be_texts() {
    let message = "K8s ServiceAccount bootstrap requires [openshell.drivers.kubernetes] when Kubernetes and sandbox JWT issuing are enabled";
    assert_eq!(kubernetes_sa_bootstrap_config(None).unwrap_err().describe(), message);
    let file = with_driver("docker", &[]);
    assert_eq!(
        kubernetes_sa_bootstrap_config(Some(&file)).unwrap_err().describe(),
        message
    );
    let mut broken = TextMap::new();
    broken.insert("workspace_mode".to_string(), TomlValue::Boolean(true));
    broken.insert("namespace".to_string(), TomlValue::Integer(-5));
    assert_eq!(
        bootstrap(broken).unwrap_err().describe(),
        "invalid Kubernetes ServiceAccount bootstrap config: \
         invalid type: integer `-5`, expected a string\nin `namespace`\n"
    );
}

fn bootstrap(
    table: TextMap<TomlValue>,
) -> Result<KubernetesSaBootstrapConfig, DriverConfigError> {
    let mut file = ConfigFile::default();
    file.openshell
        .drivers
        .insert("kubernetes".to_string(), DriverEntry::Table(table));
    kubernetes_sa_bootstrap_config(Some(&file))
}

fn bootstrap_with(
    key: &str,
    value: TomlValue,
) -> Result<KubernetesSaBootstrapConfig, DriverConfigError> {
    let mut table = TextMap::new();
    table.insert(key.to_string(), value);
    bootstrap(table)
}

#[test]
fn bootstrap_settings_are_read_as_toml_reads_them() {
    let reason = |key: &str, value: TomlValue| match bootstrap_with(key, value).unwrap_err() {
        DriverConfigError::NotText { reason } => reason,
        other => panic!("{}", other.describe()),
    };
    let other = |written: &str| TomlValue::Other(written.to_string());
    assert_eq!(
        reason("workspace_mode", TomlValue::Boolean(true)),
        "invalid type: boolean `true`, expected a string\nin `workspace_mode`\n"
    );
    assert_eq!(
        reason("workspace_mode", TomlValue::Boolean(false)),
        "invalid type: boolean `false`, expected a string\nin `workspace_mode`\n"
    );
    assert_eq!(
        reason("gateway_id", TomlValue::Integer(i64::MIN)),
        "invalid type: integer `-9223372036854775808`, expected a string\nin `gateway_id`\n"
    );
    assert_eq!(
        reason("gateway_id", other("1.5")),
        "invalid type: floating point `1.5`, expected a string\nin `gateway_id`\n"
    );
    assert_eq!(
        reason("service_account_name", other("[1, 2]")),
        "invalid type: sequence, expected a string\nin `service_account_name`\n"
    );
    assert_eq!(
        reason("namespace", other("{ a = 1 }")),
        "invalid type: map, expected a string\nin `namespace`\n"
    );
    let dated = bootstrap_with("namespace", other("1979-05-27")).expect("a date is a text");
    assert_eq!(dated.namespace, "1979-05-27");
    assert_eq!(dated.gateway_id, "openshell");
}

#[test]
fn the_first_broken_bootstrap_setting_is_reported() {
    let fine = || Ok("x".to_string());
    let broken = |reason: &str| Err(reason.to_string());
    let reason = |result: Result<KubernetesSaBootstrapConfig, DriverConfigError>| match result {
        Err(DriverConfigError::NotText { reason }) => reason,
        _ => panic!("a setting is broken"),
    };
    assert_eq!(reason(bootstrap_from_settings(broken("a"), broken("b"), fine(), fine())), "a");
    assert_eq!(reason(bootstrap_from_settings(fine(), broken("b"), broken("c"), fine())), "b");
    assert_eq!(reason(bootstrap_from_settings(fine(), fine(), broken("c"), broken("d"))), "c");
    assert_eq!(reason(bootstrap_from_settings(fine(), fine(), fine(), broken("d"))), "d");
    let text = |s: &str| Ok(s.to_string());
    let config = bootstrap_from_settings(text("id"), text("ns"), text("sa"), text("mode")).unwrap();
    assert_eq!((config.gateway_id.as_str(), config.namespace.as_str()), ("id", "ns"));
    assert_eq!(
        (config.service_account_name.as_str(), config.workspace_mode.as_str()),
        ("sa", "mode")
    );
}

#[test]
fn a_driver_without_a_file_has_its_defaults() {
    let none = TextMap::new();
    assert!(driver_config_table(context(None, &none), None, "kyma").is_none());
    let file = with_driver("kyma", &[("a", "b")]);
    let table = driver_config_table(context(Some(&file), &none), None, "kyma").unwrap();
    assert_eq!(text(&table, "a"), Some("b"));
    assert_eq!(RemoteDriverConfig::default().socket_path, "");
}

#[test]
fn guests_are_given_the_client_certificate() {
    let guest = GuestTlsPaths::from_local(&LocalTlsPaths {
        ca: "ca".to_string(),
        client_cert: "cert".to_string(),
        client_key: "key".to_string(),
    });
    assert_eq!(guest.as_paths(), ("ca", "cert", "key"));
}

#[test]
fn empty_file_yields_default_config() {
    let file = load(
        "gateway.toml",
        Ok(String::new()),
        Err("not parsed".to_string()),
    )
    .ok()
    .expect("empty file parses");
    assert!(file.openshell.version.is_none());
    assert!(file.openshell.gateway.bind_address.is_none());
    assert!(file.openshell.drivers.is_empty());
}

#[test]
fn rejects_explicit_empty_credential_drivers() {
    let mut file = ConfigFile::default();
    file.openshell.gateway.credential_drivers = Some(Vec::new());
    let contents = "\n[openshell.gateway]\ncredential_drivers = []\n".to_string();

    let err = load("gateway.toml", Ok(contents), Ok(file)).err().unwrap();

    assert!(err.describe().contains("credential_drivers"));
    assert!(err.describe().contains("omit the field"));
}

#[test]
fn rejects_database_url_in_file() {
    let mut file = ConfigFile::default();
    file.openshell.gateway.database_url = Some("sqlite::memory:".to_string());
    let contents = "[openshell.gateway]\ndatabase_url = \"sqlite::memory:\"\n".to_string();
    let err = load("gateway.toml", Ok(contents), Ok(file))
        .err()
        .expect("database_url must be rejected");
    assert!(matches!(
        &err,
        ConfigFileError::SecretInFile { field, .. } if field == "database_url"
    ));
    assert_eq!(
        err.describe(),
        "`database_url` is not allowed in the gateway config file — set the OPENSHELL_DB_URL env var or pass --db-url on the command line"
    );
}

#[test]
fn rejects_unsupported_version() {
    let mut file = ConfigFile::default();
    file.openshell.version = Some(2);
    let err = load("gateway.toml", Ok("[openshell]\nversion = 2\n".to_string()), Ok(file))
        .err()
        .expect("version > 1 must be rejected");
    assert!(matches!(err, ConfigFileError::UnsupportedVersion { version: 2 }));
    assert_eq!(
        err.describe(),
        "unsupported gateway config version 2; this build only supports version 1"
    );
    let mut file = ConfigFile::default();
    file.openshell.version = Some(SCHEMA_VERSION);
    assert!(validate(file).is_ok());
}

#[test]
fn missing_path_is_io_error() {
    let err = load(
        "/nonexistent/openshell-gateway.toml",
        Err("No such file or directory".to_string()),
        Err(String::new()),
    )
    .err()
    .expect("missing file must be io error");
    assert!(matches!(err, ConfigFileError::Io { .. }));
    assert_eq!(
        err.describe(),
        "failed to read gateway config file '/nonexistent/openshell-gateway.toml': No such file or directory"
    );
}

#[test]
fn a_file_that_does_not_parse_is_reported() {
    let err = load("g.toml", Ok("[".to_string()), Err("bad".to_string())).err().unwrap();
    assert_eq!(err.describe(), "failed to parse gateway config file 'g.toml': bad");
}

#[test]
fn driver_table_inherits_gateway_defaults() {
    let gateway = GatewayFileSection {
        default_image: Some("ghcr.io/nvidia/openshell/sandbox:0.9".to_string()),
        supervisor_image: Some("ghcr.io/nvidia/openshell/supervisor:0.9".to_string()),
        ..Default::default()
    };
    let raw = table(&[("namespace", "agents")]);
    let merged = driver_table(Some(ComputeDriverKind::Kubernetes), &gateway, Some(&raw));
    assert_eq!(text(&merged, "namespace"), Some("agents"));
    assert_eq!(
        text(&merged, "default_image"),
        Some("ghcr.io/nvidia/openshell/sandbox:0.9")
    );
    assert_eq!(
        text(&merged, "supervisor_image"),
        Some("ghcr.io/nvidia/openshell/supervisor:0.9")
    );
}

#[test]
fn docker_driver_table_inherits_gateway_defaults() {
    let gateway = GatewayFileSection {
        sandbox_namespace: Some("agents".to_string()),
        default_image: Some("ghcr.io/nvidia/openshell/sandbox:0.9".to_string()),
        host_gateway_ip: Some("10.0.0.1".to_string()),
        ..Default::default()
    };
    let merged = driver_table(Some(ComputeDriverKind::Docker), &gateway, None);
    assert_eq!(text(&merged, "sandbox_namespace"), Some("agents"));
    assert_eq!(
        text(&merged, "default_image"),
        Some("ghcr.io/nvidia/openshell/sandbox:0.9")
    );
    assert_eq!(text(&merged, "host_gateway_ip"), Some("10.0.0.1"));
}

#[test]
fn podman_driver_table_inherits_gateway_host_gateway_ip() {
    let gateway = GatewayFileSection {
        default_image: Some("ghcr.io/nvidia/openshell/sandbox:0.9".to_string()),
        host_gateway_ip: Some("192.168.127.254".to_string()),
        ..Default::default()
    };
    let merged = driver_table(Some(ComputeDriverKind::Podman), &gateway, None);
    assert_eq!(
        text(&merged, "default_image"),
        Some("ghcr.io/nvidia/openshell/sandbox:0.9")
    );
    assert_eq!(text(&merged, "host_gateway_ip"), Some("192.168.127.254"));
}

#[test]
fn driver_table_specific_value_overrides_gateway_default() {
    let gateway = GatewayFileSection {
        default_image: Some("gateway-default".to_string()),
        ..Default::default()
    };
    let raw = table(&[("default_image", "driver-specific")]);
    let merged = driver_table(Some(ComputeDriverKind::Podman), &gateway, Some(&raw));
    assert_eq!(text(&merged, "default_image"), Some("driver-specific"));
}

#[test]
fn driver_table_does_not_leak_keys_outside_allowlist() {
    let gateway = GatewayFileSection {
        client_tls_secret_name: Some("openshell-sandbox-tls".to_string()),
        ..Default::default()
    };
    let merged = driver_table(Some(ComputeDriverKind::Docker), &gateway, None);
    assert!(!merged.contains_key("client_tls_secret_name"));
}

#[test]
fn remote_driver_table_does_not_inherit_gateway_defaults() {
    let gateway = GatewayFileSection {
        default_image: Some("gateway-default:1.0".to_string()),
        host_gateway_ip: Some("10.0.0.1".to_string()),
        ..Default::default()
    };
    let raw = table(&[("socket_path", "/run/openshell/kyma.sock")]);

    let merged = driver_table(None, &gateway, Some(&raw));

    assert_eq!(text(&merged, "socket_path"), Some("/run/openshell/kyma.sock"));
    assert!(!merged.contains_key("default_image"));
    assert!(!merged.contains_key("host_gateway_ip"));
}

#[test]
fn settings_keep_their_sort_when_they_are_inherited() {
    let gateway = GatewayFileSection {
        sandbox_namespace: Some("agents".to_string()),
        enable_user_namespaces: Some(true),
        sa_token_ttl_secs: Some(900),
        guest_tls_ca: Some("/ca".to_string()),
        ..Default::default()
    };
    let merged = driver_table(
        Some(ComputeDriverKind::Kubernetes),
        &gateway,
        Some(&DriverEntry::NotATable),
    );
    assert_eq!(text(&merged, "namespace"), Some("agents"));
    assert!(matches!(
        merged.get("enable_user_namespaces"),
        Some(TomlValue::Boolean(true))
    ));
    assert!(matches!(merged.get("sa_token_ttl_secs"), Some(TomlValue::Integer(900))));
    assert!(!merged.contains_key("guest_tls_ca"));
    let merged = driver_table(Some(ComputeDriverKind::Vm), &gateway, None);
    assert_eq!(merged.len(), 1);
    assert_eq!(text(&merged, "guest_tls_ca"), Some("/ca"));
    assert_eq!(inheritable_keys(Some(ComputeDriverKind::Kubernetes)).len(), 8);
    assert_eq!(inheritable_keys(Some(ComputeDriverKind::Docker)).len(), 7);
    assert_eq!(inheritable_keys(Some(ComputeDriverKind::Podman)).len(), 6);
    assert_eq!(inheritable_keys(Some(ComputeDriverKind::Vm)).len(), 4);
    assert!(inheritable_keys(None).is_empty());
    assert!(gateway_inherited_value(&gateway, InheritedKey::GuestTlsKey).is_none());
    assert_eq!(InheritedKey::SaTokenTtlSecs.as_str(), "sa_token_ttl_secs");
}

fn middleware(tls_ca_cert_path: Option<&str>) -> MiddlewareServiceFileConfig {
    MiddlewareServiceFileConfig {
        name: "local-guard".to_string(),
        grpc_endpoint: "https://guard.example:50051".to_string(),
        tls_ca_cert_path: tls_ca_cert_path.map(|path| path.to_string()),
        audience: None,
        allow_insecure_transport: false,
        max_payload_bytes: 262_144,
        timeout: None,
    }
}

#[test]
fn parses_supervisor_middleware_registration() {
    let certificate = rcgen::generate_simple_self_signed(vec!["localhost".to_string()])
        .expect("test certificate");
    let config = MiddlewareServiceFileConfig {
        name: "local-guard".to_string(),
        grpc_endpoint: "https://127.0.0.1:50051".to_string(),
        tls_ca_cert_path: Some("/tmp/ca.pem".to_string()),
        audience: Some("urn:openshell:middleware:local-guard".to_string()),
        allow_insecure_transport: false,
        max_payload_bytes: 262_144,
        timeout: Some("2s".to_string()),
    };
    let registration = SupervisorMiddlewareService::try_from_config(
        &config,
        Ok(certificate.cert.pem().into_bytes()),
    )
    .expect("valid CA resolves");
    assert_eq!(registration.timeout, "2s");
    assert_eq!(
        registration.tls_ca_cert_pem,
        certificate.cert.pem().as_bytes()
    );
    assert_eq!(
        registration.audience,
        "urn:openshell:middleware:local-guard"
    );
    assert_eq!(registration.max_payload_bytes, 262_144);
}

#[test]
fn middleware_registration_defaults_audience_to_name() {
    let mut config = middleware(None);

    let registration =
        SupervisorMiddlewareService::try_from_config(&config, Err("not read".to_string())).unwrap();
    assert_eq!(
        registration.audience,
        "urn:openshell:extension:middleware:local-guard"
    );
    assert!(registration.tls_ca_cert_pem.is_empty());

    config.audience = Some(String::new());
    let registration =
        SupervisorMiddlewareService::try_from_config(&config, Err("not read".to_string())).unwrap();
    assert_eq!(
        registration.audience,
        "urn:openshell:extension:middleware:local-guard"
    );
}

#[test]
fn middleware_registration_rejects_invalid_ca_pem() {
    let error = SupervisorMiddlewareService::try_from_config(
        &middleware(Some("/tmp/ca.pem")),
        Ok(b"not a certificate".to_vec()),
    )
    .expect_err("invalid CA must fail before service connection");
    assert!(matches!(
        error,
        ConfigFileError::MiddlewareTlsCaInvalid { .. }
    ));
}

#[test]
fn middleware_registration_rejects_ca_bundle_with_private_key() {
    let certificate =
        rcgen::generate_simple_self_signed(vec!["localhost".into()]).expect("test certificate");
    let mut bundle = certificate.cert.pem().into_bytes();
    bundle.extend_from_slice(certificate.key_pair.serialize_pem().as_bytes());

    let error = SupervisorMiddlewareService::try_from_config(
        &middleware(Some("/tmp/ca.pem")),
        Ok(bundle),
    )
    .expect_err("private key material must never be distributed to a sandbox");
    assert!(matches!(
        error,
        ConfigFileError::MiddlewareTlsCaInvalid { .. }
    ));
    assert!(error.describe().contains("non-certificate block"));
}

#[test]
fn certificates_that_cannot_be_read_are_reported() {
    let error = SupervisorMiddlewareService::try_from_config(
        &middleware(Some("/tmp/ca.pem")),
        Err("gone".to_string()),
    )
    .unwrap_err();
    assert_eq!(
        error.describe(),
        "failed to read TLS CA certificate for supervisor middleware 'local-guard' from '/tmp/ca.pem': gone"
    );
    let error = sanitize_ca_cert_pem("n", "p", &b"-----BEGIN CERTIFICATE-----\nAA==\n".to_vec())
        .unwrap_err();
    assert!(error
        .describe()
        .starts_with("invalid TLS CA certificate for supervisor middleware 'n' at 'p': section end"));
}

#[test]
fn bundles_hold_certificates_in_short_lines() {
    let bytes: Vec<u8> = (0..60_u8).collect();
    let sections = vec![PemSection::Certificate(bytes), PemSection::Certificate(vec![255])];
    let text = String::from_utf8(sanitize_sections("n", "p", &sections).unwrap()).unwrap();
    assert_eq!(
        text,
        "-----BEGIN CERTIFICATE-----\n\
         AAECAwQFBgcICQoLDA0ODxAREhMUFRYXGBkaGxwdHh8gISIjJCUmJygpKissLS4v\n\
         MDEyMzQ1Njc4OTo7\n\
         -----END CERTIFICATE-----\n\
         -----BEGIN CERTIFICATE-----\n\
         /w==\n\
         -----END CERTIFICATE-----\n"
    );
    let error = sanitize_sections(
        "n",
        "p",
        &vec![PemSection::Broken("first".to_string()), PemSection::Other],
    )
    .unwrap_err();
    assert!(error.describe().ends_with(": first"));
    let error = sanitize_sections("n", "p", &Vec::new()).unwrap_err();
    assert!(error
        .describe()
        .ends_with(": PEM bundle does not contain a certificate"));
}
