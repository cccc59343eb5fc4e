use jsonwebtoken::{encode, Algorithm, EncodingKey, Header};
use openshell::appraisal::GetSandboxAttestationResponse;
use openshell::attestation::claims::{
    appraisal_from_claims, event_matches_component, measurement_without_event,
    measurements_from_tdx, required_ar4si_value, required_display_string, required_hex,
    validated_first_digest, AppraisalError,
};
use openshell::attestation::reference::{
    digest_length, normalize_hex, normalize_references, reference_key, reference_key_parts,
    validate_display_text, BootComponent,
};
use openshell::attestation::report::{
    begin_collecting, begin_evidence, evidence_path, finish_evidence, is_to_be_read,
    read_bounded_file, trustee_token, AttestationReporter, BoundedBody, CollectAction, CollectEvent, CollectState,
    FileRead, MAX_EVIDENCE_BYTES,
};
use openshell::attestation::trustee::{
    attestation_path, trustee_attestation_url, verify_ear, AppraisalKey, UrlHost, UrlParts,
};
use openshell::config::file::{default_attestation_policy_id, AttestationReportFileConfig};
use openshell::text_map::TextMap;
use rcgen::{KeyPair, PKCS_ECDSA_P256_SHA256};
use serde_json::Value;
use std::time::{SystemTime, UNIX_EPOCH};

const POLICY_ID: &str = "default";

fn reference_map(entries: &[(&str, &str)]) -> TextMap<Vec<String>> {
    let mut map = TextMap::new();
    for (key, value) in entries {
        map.insert(key.to_string(), vec![value.to_string()]);
    }
    map
}

fn references() -> TextMap<Vec<String>> {
    reference_map(&[
        ("measurement.shim.SHA-384", &"aa".repeat(48)),
        ("measurement.grub.SHA-384", &"bb".repeat(48)),
        ("measurement.kernel.SHA-384", &"cc".repeat(48)),
        ("measurement.initrd.SHA-384", &"dd".repeat(48)),
        ("measurement.kernel_cmdline.SHA-384", &"ee".repeat(48)),
    ])
}

fn json(text: &str) -> Value {
    serde_json::from_str(text).expect("valid JSON")
}

fn event(event_type: &str, details: &str, digest: String) -> String {
    format!(
        r#"{{"type_name": "{event_type}", "details": {details},
            "digests": [{{"alg": "SHA-384", "digest": "{digest}"}}]}}"#
    )
}

fn matching_events() -> Vec<String> {
    vec![
        event(
            "EV_EFI_BOOT_SERVICES_APPLICATION",
            r#"{"device_paths": ["/EFI/alinux/shimx64.efi"]}"#,
            "aa".repeat(48),
        ),
        event(
            "EV_EFI_BOOT_SERVICES_APPLICATION",
            r#"{"device_paths": ["/EFI/alinux/grubx64.efi"]}"#,
            "bb".repeat(48),
        ),
        event("EV_IPL", r#"{"string": "grub_linuxefi Kernel"}"#, "cc".repeat(48)),
        event("EV_IPL", r#"{"string": "grub_linuxefi Initrd"}"#, "dd".repeat(48)),
        event(
            "EV_IPL",
            r#"{"string": "grub_kernel_cmdline root=/dev/vda"}"#,
            "ee".repeat(48),
        ),
    ]
}

fn hex(bytes: &[u8]) -> String {
    bytes.iter().map(|b| format!("{b:02x}")).collect()
}

fn claims(nonce: &[u8; 32], events: Vec<String>) -> Value {
    let now = SystemTime::now()
        .duration_since(UNIX_EPOCH)
        .expect("clock")
        .as_secs();
    json(&format!(
        r#"{{
            "iat": {now},
            "exp": {},
            "submods": {{"cpu0": {{
                "ear.status": "affirming",
                "ear.appraisal-policy-id": "{POLICY_ID}",
                "ear.trustworthiness-vector": {{
                    "hardware": 2,
                    "executables": 3,
                    "configuration": 2,
                    "file-system": 2
                }},
                "ear.veraison.annotated-evidence": {{
                    "report_data": "{}{}",
                    "tdx": {{"uefi_event_logs": [{}]}}
                }}
            }}}}
        }}"#,
        now + 300,
        hex(nonce),
        "0".repeat(64),
        events.join(", ")
    ))
}

fn signed_token(claims: &Value) -> (String, Vec<u8>) {
    let key = KeyPair::generate_for(&PKCS_ECDSA_P256_SHA256).expect("key");
    let private_pem = key.serialize_pem();
    let public_pem = key.public_key_pem().into_bytes();
    let token = encode(
        &Header::new(Algorithm::ES256),
        claims,
        &EncodingKey::from_ec_pem(private_pem.as_bytes()).expect("encoding key"),
    )
    .expect("token");
    (token, public_pem)
}

fn decoding_key(pem: &[u8]) -> AppraisalKey {
    match AppraisalKey::from_ec_pem(pem.to_vec()) {
        Ok(key) => key,
        Err(reason) => panic!("decoding key: {reason}"),
    }
}

fn measurement<'a>(appraisal: &'a GetSandboxAttestationResponse, component: &str) -> &'a str {
    &appraisal
        .measurements
        .iter()
        .find(|measurement| measurement.component == component)
        .expect(component)
        .measurement
}

#[test]
fn signed_ear_binds_nonce_policy_and_measurements() {
    let nonce = [7_u8; 32];
    let (token, public_key) = signed_token(&claims(&nonce, matching_events()));
    let appraisal = verify_ear(
        &token,
        &nonce,
        &decoding_key(&public_key),
        &references(),
        POLICY_ID,
    )
    .expect("valid appraisal");

    assert_eq!(appraisal.ear_status, "affirming");
    assert_eq!(appraisal.policy_id, POLICY_ID);
    assert_eq!(appraisal.measurements.len(), 5);
    assert!(appraisal.measurements.iter().all(|measurement| {
        !measurement.measurement.is_empty()
            && measurement.references.contains(&measurement.measurement)
    }));
    let vector = appraisal.ar4si_vector.expect("vector");
    assert_eq!(vector.hardware, 2);
    assert_eq!(vector.executables, 3);
    assert_eq!(vector.configuration, 2);
    assert_eq!(vector.file_system, 2);
}

#[test]
fn signed_ear_rejects_wrong_nonce_and_policy() {
    let nonce = [7_u8; 32];
    let (token, public_key) = signed_token(&claims(&nonce, matching_events()));
    let key = decoding_key(&public_key);
    assert!(matches!(
        verify_ear(&token, &[8_u8; 32], &key, &references(), POLICY_ID),
        Err(AppraisalError::InvalidAppraisal)
    ));
    assert!(matches!(
        verify_ear(&token, &nonce, &key, &references(), "another-policy"),
        Err(AppraisalError::InvalidAppraisal)
    ));
}

#[test]
fn signed_ear_rejects_invalid_signature_and_expiry() {
    let nonce = [5_u8; 32];
    let (token, _) = signed_token(&claims(&nonce, matching_events()));
    let (_, other_public_key) = signed_token(&claims(&nonce, matching_events()));
    assert!(matches!(
        verify_ear(
            &token,
            &nonce,
            &decoding_key(&other_public_key),
            &references(),
            POLICY_ID,
        ),
        Err(AppraisalError::InvalidAppraisal)
    ));

    let mut expired = claims(&nonce, matching_events());
    expired["exp"] = Value::from(1);
    let (expired_token, public_key) = signed_token(&expired);
    assert!(matches!(
        verify_ear(
            &expired_token,
            &nonce,
            &decoding_key(&public_key),
            &references(),
            POLICY_ID,
        ),
        Err(AppraisalError::InvalidAppraisal)
    ));
}

#[test]
fn a_token_must_say_when_it_expires() {
    let nonce = [7_u8; 32];
    let mut undated = claims(&nonce, matching_events());
    assert!(undated.as_object_mut().expect("object").remove("exp").is_some());
    let (token, public_key) = signed_token(&undated);
    assert!(matches!(
        verify_ear(&token, &nonce, &decoding_key(&public_key), &references(), POLICY_ID),
        Err(AppraisalError::InvalidAppraisal)
    ));
}

#[test]
fn a_list_of_claims_is_no_appraisal() {
    let nonce = [7_u8; 32];
    let dated = claims(&nonce, matching_events());
    let (token, public_key) = signed_token(&Value::Array(vec![dated["exp"].clone()]));
    assert!(matches!(
        verify_ear(&token, &nonce, &decoding_key(&public_key), &references(), POLICY_ID),
        Err(AppraisalError::InvalidAppraisal)
    ));
}

#[test]
fn direct_boot_events_expose_kernel_and_load_options() {
    let nonce = [6_u8; 32];
    let events = vec![
        event(
            "EV_EFI_BOOT_SERVICES_APPLICATION",
            r#"{"device_paths": ["VenMedia(...)", "File(kernel)"]}"#,
            "cc".repeat(48),
        ),
        event(
            "EV_EVENT_TAG",
            r#"{"string": "LOADED_IMAGE::LoadOptions"}"#,
            "ee".repeat(48),
        ),
    ];
    let appraisal = appraisal_from_claims(&claims(&nonce, events), &nonce, &references(), POLICY_ID)
        .expect("direct-boot appraisal");
    assert_eq!(measurement(&appraisal, "kernel"), "cc".repeat(48));
    assert_eq!(measurement(&appraisal, "kernel_cmdline"), "ee".repeat(48));
}

#[test]
fn absent_event_log_keeps_only_normalized_references() {
    let nonce = [9_u8; 32];
    let mut value = claims(&nonce, Vec::new());
    value["submods"]["cpu0"]["ear.veraison.annotated-evidence"]["tdx"] = json("{}");
    let appraisal = appraisal_from_claims(&value, &nonce, &references(), POLICY_ID)
        .expect("appraisal without event log");
    assert!(appraisal.measurements.iter().all(|measurement| {
        measurement.measurement.is_empty() && !measurement.references.is_empty()
    }));
}

#[test]
fn malformed_vector_and_terminal_control_data_are_rejected() {
    let nonce = [4_u8; 32];
    let mut value = claims(&nonce, matching_events());
    value["submods"]["cpu0"]["ear.trustworthiness-vector"] = Value::Object(serde_json::Map::new());
    assert!(matches!(
        appraisal_from_claims(&value, &nonce, &references(), POLICY_ID),
        Err(AppraisalError::InvalidAppraisal)
    ));

    let mut value = claims(&nonce, matching_events());
    value["submods"]["cpu0"]["ear.status"] = Value::from("affirming\u{1b}[2J");
    assert!(matches!(
        appraisal_from_claims(&value, &nonce, &references(), POLICY_ID),
        Err(AppraisalError::InvalidAppraisal)
    ));
}

#[test]
fn reference_measurements_require_supported_normalized_hex() {
    let invalid = reference_map(&[("measurement.kernel.SHA-384", "not-a-digest\u{1b}[2J")]);
    assert!(normalize_references(&invalid).is_err());

    let uppercase = reference_map(&[("measurement.kernel.SHA-384", &"AB".repeat(48))]);
    let normal = match normalize_references(&uppercase) {
        Ok(normal) => normal,
        Err(reason) => panic!("valid references: {reason}"),
    };
    assert_eq!(
        normal.get("measurement.kernel.SHA-384").expect("kernel")[0],
        "ab".repeat(48)
    );

    let untrusted = reference_map(&[
        ("measurement.kernel.attacker.SHA-384", "value\u{1b}[2J"),
        ("measurement.kernel.SHA-512", "value\u{1b}[2J"),
        ("tdx.xfam", "value\u{1b}[2J"),
    ]);
    match normalize_references(&untrusted) {
        Ok(normal) => assert!(normal.is_empty()),
        Err(reason) => panic!("unrelated reference keys are ignored: {reason}"),
    }
}

#[test]
fn absent_event_log_uses_only_exact_supported_reference_keys() {
    let given = reference_map(&[
        ("measurement.kernel.attacker.SHA-384", "value\u{1b}[2J"),
        ("measurement.kernel.SHA-256", &"ab".repeat(32)),
    ]);
    let references = match normalize_references(&given) {
        Ok(references) => references,
        Err(reason) => panic!("normalized references: {reason}"),
    };

    let measurement = measurement_without_event(BootComponent::Kernel, &references);
    assert_eq!(measurement.algorithm, "SHA-256");
    assert_eq!(measurement.references, vec!["ab".repeat(32)]);
}

#[test]
fn trustee_url_is_loopback_and_has_no_credentials() {
    assert!(trustee_attestation_url("http://127.0.0.1:50005").is_ok());
    assert!(trustee_attestation_url("http://localhost:8081/api/").is_ok());
    assert!(trustee_attestation_url("https://10.0.0.2:8081/api").is_err());
    assert!(trustee_attestation_url("http://user@127.0.0.1:8081/api").is_err());
    assert!(trustee_attestation_url("file:///run/trustee.sock").is_err());
}

#[test]
fn trustee_urls_are_completed() {
    assert_eq!(
        trustee_attestation_url("http://127.0.0.1:50005").unwrap(),
        "http://127.0.0.1:50005/attestation"
    );
    assert_eq!(
        trustee_attestation_url("http://LOCALHOST:8081/api//").unwrap(),
        "http://localhost:8081/api/attestation"
    );
    assert_eq!(
        trustee_attestation_url("nonsense").unwrap_err(),
        "invalid attestation_report.trustee_url: relative URL without a base"
    );
    assert_eq!(
        trustee_attestation_url("ftp://127.0.0.1").unwrap_err(),
        "attestation_report.trustee_url must use http or https"
    );
    assert_eq!(
        trustee_attestation_url("http://127.0.0.1/?q").unwrap_err(),
        "attestation_report.trustee_url must not contain credentials, query, or fragment"
    );
    assert_eq!(
        trustee_attestation_url("http://[::1]:80/").unwrap_err(),
        "attestation_report.trustee_url must use a loopback host"
    );
    assert_eq!(
        trustee_attestation_url("http://example.com/").unwrap_err(),
        "attestation_report.trustee_url must use a loopback host"
    );
}

#[test]
fn a_url_without_a_host_is_refused() {
    let parts = UrlParts {
        scheme: "http".to_string(),
        username: String::new(),
        has_password: false,
        has_query: false,
        has_fragment: false,
        host: UrlHost::Absent,
        path: "/".to_string(),
    };
    assert_eq!(
        attestation_path(&parts).unwrap_err(),
        "attestation_report.trustee_url requires a host"
    );
    let parts = UrlParts { host: UrlHost::Ipv4([127, 9, 9, 9]), ..parts };
    assert_eq!(attestation_path(&parts).unwrap(), "/attestation");
}

#[test]
fn reference_keys_come_apart_and_together() {
    let key = reference_key(BootComponent::KernelCmdline, "SHA-256");
    assert_eq!(key, "measurement.kernel_cmdline.SHA-256");
    let (component, algorithm) = reference_key_parts(&key).expect("parts");
    assert_eq!(component, BootComponent::KernelCmdline);
    assert_eq!(algorithm, "SHA-256");
    assert!(reference_key_parts("measurement.kernel").is_none());
    assert!(reference_key_parts("measurement.firmware.SHA-1").is_none());
    assert!(reference_key_parts("kernel.SHA-1").is_none());
    assert_eq!(digest_length("SHA-1"), Some(40));
    assert_eq!(digest_length("SHA-256"), Some(64));
    assert_eq!(digest_length("SHA-384"), Some(96));
    assert_eq!(digest_length("SHA-512"), None);
}

#[test]
fn digests_are_put_in_small_letters_once() {
    let normal = normalize_hex("00AAbbFF", 8).unwrap();
    assert_eq!(normal, "00aabbff");
    assert_eq!(normalize_hex(&normal, 8).unwrap(), normal);
    assert!(normalize_hex("00aabbfg", 8).is_none());
    assert!(normalize_hex("00aabb", 8).is_none());
}

#[test]
fn the_first_broken_reference_is_reported() {
    let broken = reference_map(&[
        ("measurement.shim.SHA-1", "x"),
        ("measurement.grub.SHA-1", "y"),
    ]);
    match normalize_references(&broken) {
        Ok(_) => panic!("broken references"),
        Err(reason) => assert_eq!(reason, "invalid reference digest in measurement.grub.SHA-1"),
    }
}

#[test]
fn display_text_is_printable_and_bounded() {
    assert_eq!(validate_display_text("abc", 3, "label").unwrap(), "abc");
    for refused in ["", "abcd", "a b", "a\u{7f}", "\u{e4}"] {
        assert_eq!(
            validate_display_text(refused, 3, "label").unwrap_err(),
            "label must contain 1..=3 printable ASCII bytes"
        );
    }
}

#[test]
fn claims_are_read_by_their_form() {
    let value = json(r#"{"a": "x", "n": 127, "m": 128, "f": 1.5, "h": "AB"}"#);
    assert_eq!(required_display_string(&value, "a", 1).unwrap(), "x");
    assert!(required_display_string(&value, "n", 1).is_err());
    assert_eq!(required_ar4si_value(&value, "n").unwrap(), 127);
    assert!(required_ar4si_value(&value, "m").is_err());
    assert!(required_ar4si_value(&value, "f").is_err());
    assert!(required_ar4si_value(&value, "missing").is_err());
    assert_eq!(required_hex(&value, "h", 2).unwrap(), "ab");
    assert!(required_hex(&value, "h", 4).is_err());
}

#[test]
fn a_digest_that_is_expected_is_shown_before_the_first() {
    let events = format!(
        r#"{{"uefi_event_logs": [{}, {}]}}"#,
        event("EV_IPL", r#"{"string": "Initrd one"}"#, "11".repeat(48)),
        event("EV_IPL", r#"{"string": "Initrd two"}"#, "dd".repeat(48)),
    );
    let shown = measurements_from_tdx(&json(&events), &references()).unwrap();
    assert_eq!(shown[3].component, "initrd");
    assert_eq!(shown[3].measurement, "dd".repeat(48));
    let none = TextMap::new();
    let shown = measurements_from_tdx(&json(&events), &none).unwrap();
    assert_eq!(shown[3].measurement, "11".repeat(48));
    assert!(shown[3].references.is_empty());
    assert_eq!(shown[0].algorithm, "");
}

#[test]
fn broken_event_logs_are_refused() {
    let broken = json(r#"{"uefi_event_logs": {}}"#);
    assert!(matches!(
        measurements_from_tdx(&broken, &references()),
        Err(AppraisalError::InvalidAppraisal)
    ));
    let event = json(r#"{"type_name": "EV_IPL", "details": {"string": "Kernel"}, "digests": []}"#);
    assert!(event_matches_component(&event, BootComponent::Kernel));
    assert!(!event_matches_component(&event, BootComponent::Initrd));
    assert!(validated_first_digest(&event).is_err());
    let event = json(r#"{"digests": [{"alg": "MD5", "digest": "00"}]}"#);
    assert!(validated_first_digest(&event).is_err());
    let event = json(&format!(
        r#"{{"digests": [{{"alg": "SHA-1", "digest": "{}"}}]}}"#,
        "AB".repeat(20)
    ));
    assert_eq!(
        validated_first_digest(&event).unwrap(),
        ("SHA-1".to_string(), "ab".repeat(20))
    );
}

#[test]
fn appraisal_errors_have_words() {
    assert_eq!(
        AppraisalError::RelayUnavailable.describe(),
        "sandbox attestation relay is unavailable"
    );
    assert_eq!(
        AppraisalError::EvidenceCollection.describe(),
        "sandbox evidence collection failed"
    );
    assert_eq!(
        AppraisalError::TrusteeRequest.describe(),
        "Trustee appraisal request failed"
    );
    assert_eq!(
        AppraisalError::InvalidAppraisal.describe(),
        "Trustee returned an invalid appraisal"
    );
}

fn opened(contents: &[u8]) -> FileRead {
    FileRead::Opened {
        regular: true,
        len: contents.len() as u64,
        contents: Ok(contents.to_vec()),
    }
}

#[test]
fn files_are_bounded() {
    assert!(is_to_be_read(true, 2, 2));
    assert!(!is_to_be_read(true, 3, 2));
    assert!(!is_to_be_read(false, 2, 2));
    assert_eq!(read_bounded_file("p", 3, "key", opened(b"abc")).unwrap(), b"abc");
    assert_eq!(
        read_bounded_file("p", 2, "key", opened(b"abc")).unwrap_err(),
        "key p exceeds 2 bytes"
    );
    let grown = FileRead::Opened { regular: true, len: 0, contents: Ok(vec![0; 3]) };
    assert_eq!(
        read_bounded_file("p", 2, "key", grown).unwrap_err(),
        "key p exceeds 2 bytes"
    );
    let directory = FileRead::Opened { regular: false, len: 0, contents: Ok(Vec::new()) };
    assert_eq!(
        read_bounded_file("p", 2, "key", directory).unwrap_err(),
        "key p must be a regular file"
    );
    let unread = FileRead::Opened { regular: true, len: 0, contents: Err("gone".to_string()) };
    assert_eq!(
        read_bounded_file("p", 2, "key", unread).unwrap_err(),
        "failed to read key p: gone"
    );
    assert_eq!(
        read_bounded_file("p", 2, "key", FileRead::NotOpened("gone".to_string())).unwrap_err(),
        "failed to open key p: gone"
    );
    assert_eq!(
        read_bounded_file("p", 2, "key", FileRead::NotInspected("gone".to_string())).unwrap_err(),
        "failed to inspect key p: gone"
    );
}

fn report_config() -> AttestationReportFileConfig {
    AttestationReportFileConfig {
        trustee_url: "http://127.0.0.1:50005".to_string(),
        reference_values_path: "refs.json".to_string(),
        as_public_key_path: "key.pem".to_string(),
        policy_id: " default ".to_string(),
    }
}

fn failure(
    config: &AttestationReportFileConfig,
    reference_file: FileRead,
    key_file: FileRead,
) -> String {
    match AttestationReporter::from_config(config, reference_file, key_file) {
        Ok(_) => panic!("the configuration is not in order"),
        Err(reason) => reason,
    }
}

#[test]
fn a_reporter_is_configured_from_its_files() {
    let (_, pem) = signed_token(&claims(&[0; 32], Vec::new()));
    let refs = format!(
        r#"{{"measurement.shim.SHA-1": ["{}"], "other": ["x"]}}"#,
        "AB".repeat(20)
    );
    let reporter = match AttestationReporter::from_config(
        &report_config(),
        opened(refs.as_bytes()),
        opened(&pem),
    ) {
        Ok(reporter) => reporter,
        Err(reason) => panic!("{reason}"),
    };
    assert_eq!(reporter.trustee_attestation_url, "http://127.0.0.1:50005/attestation");
    assert_eq!(reporter.policy_id, "default");
    assert_eq!(reporter.references.len(), 1);
    assert_eq!(
        reporter.references.get("measurement.shim.SHA-1").unwrap()[0],
        "ab".repeat(20)
    );
    assert_eq!(default_attestation_policy_id(), "default");
}

#[test]
fn what_is_wrong_with_a_configuration_is_reported() {
    let (_, pem) = signed_token(&claims(&[0; 32], Vec::new()));
    let mut config = report_config();
    config.trustee_url = "http://10.0.0.1".to_string();
    assert_eq!(
        failure(&config, opened(b"{}"), opened(&pem)),
        "attestation_report.trustee_url must use a loopback host"
    );
    config = report_config();
    config.policy_id = "  ".to_string();
    assert_eq!(
        failure(&config, opened(b"{}"), opened(&pem)),
        "attestation_report.policy_id must contain 1..=256 printable ASCII bytes"
    );
    config = report_config();
    assert_eq!(
        failure(&config, FileRead::NotOpened("gone".to_string()), opened(&pem)),
        "failed to open reference values refs.json: gone"
    );
    assert!(failure(&config, opened(b"[]"), opened(&pem))
        .starts_with("failed to parse attestation reference values refs.json: invalid type"));
    assert_eq!(
        failure(
            &config,
            opened(br#"{"measurement.shim.SHA-1": ["zz"]}"#),
            opened(&pem)
        ),
        "invalid reference digest in measurement.shim.SHA-1"
    );
    assert_eq!(
        failure(&config, opened(b"{}"), opened(&vec![0; 16385])),
        "attestation-service public key key.pem exceeds 16384 bytes"
    );
    assert!(failure(&config, opened(b"{}"), opened(b"no key"))
        .starts_with("failed to parse attestation-service EC public key key.pem: "));
}

#[test]
fn bodies_are_bounded() {
    assert!(BoundedBody::begin(Some(5), 4).is_none());
    let mut body = BoundedBody::begin(None, 4).unwrap();
    assert!(body.push(b"abc"));
    assert!(!body.push(b"de"));
    assert!(body.push(b"f"));
    assert_eq!(body.into_bytes(), b"abcf");
    let too_long = (MAX_EVIDENCE_BYTES + 1).to_string();
    assert!(matches!(
        begin_evidence(Some(&too_long)),
        Err(AppraisalError::EvidenceCollection)
    ));
    assert!(begin_evidence(Some("99999999999999999999999999")).is_ok());
    assert!(begin_evidence(Some("many")).is_ok());
    assert!(matches!(
        finish_evidence(BoundedBody::begin(None, 4).unwrap()),
        Err(AppraisalError::EvidenceCollection)
    ));
}

#[test]
fn a_token_is_trimmed_and_must_be_there() {
    assert_eq!(trustee_token(&b" signed.ear.token\n".to_vec()).unwrap(), "signed.ear.token");
    assert!(matches!(
        trustee_token(&b" \n".to_vec()),
        Err(AppraisalError::InvalidAppraisal)
    ));
    assert!(matches!(
        trustee_token(&vec![0xff, 0xfe]),
        Err(AppraisalError::InvalidAppraisal)
    ));
}

#[test]
fn nonces_are_fresh() {
    let (state, first) = begin_collecting();
    assert!(matches!(state, CollectState::Start));
    let (_, second) = begin_collecting();
    assert_ne!(first, second);
}

fn reporter(pem: &[u8]) -> AttestationReporter {
    AttestationReporter {
        trustee_attestation_url: "http://127.0.0.1/attestation".to_string(),
        policy_id: POLICY_ID.to_string(),
        references: references(),
        decoding_key: decoding_key(pem),
    }
}

#[test]
fn an_appraisal_is_collected_step_by_step() {
    let nonce = [0x31_u8; 32];
    let (token, pem) = signed_token(&claims(&nonce, matching_events()));
    let reporter = reporter(&pem);
    assert_eq!(
        evidence_path(&[0x5a; 32]),
        "/aa/evidence?runtime_data=WlpaWlpaWlpaWlpaWlpaWlpaWlpaWlpaWlpaWlpaWlo&encoding=base64"
    );

    let (state, action) = reporter.collect(
        CollectState::Start,
        CollectEvent::Session(Some("session-1".to_string())),
        &nonce,
    );
    assert!(matches!(action, CollectAction::OpenRelay));
    let (state, action) = reporter.collect(state, CollectEvent::Relay(true), &nonce);
    match action {
        CollectAction::RequestEvidence(path) => assert_eq!(path, evidence_path(&nonce)),
        _ => panic!("evidence is requested"),
    }
    let evidence = b"fresh-tdx-evidence".to_vec();
    let (state, action) = reporter.collect(state, CollectEvent::Evidence(Ok(evidence)), &nonce);
    match action {
        CollectAction::RequestTrustee(request) => {
            assert_eq!(request.tee, "tdx");
            assert_eq!(request.evidence, "ZnJlc2gtdGR4LWV2aWRlbmNl");
            assert_eq!(request.runtime_data, "MTExMTExMTExMTExMTExMTExMTExMTExMTExMTExMTE");
            assert_eq!(request.policy_id, POLICY_ID);
        }
        _ => panic!("the trustee is asked"),
    }
    let (state, action) = reporter.collect(state, CollectEvent::Token(Ok(token)), &nonce);
    match action {
        CollectAction::CheckSession(session) => assert_eq!(session, "session-1"),
        _ => panic!("the session is checked"),
    }
    let (state, action) = reporter.collect(state, CollectEvent::Current(true), &nonce);
    assert!(matches!(state, CollectState::Done));
    match action {
        CollectAction::Report(Ok(appraisal)) => assert_eq!(appraisal.ear_status, "affirming"),
        _ => panic!("the appraisal is reported"),
    }
    let (_, action) = reporter.collect(state, CollectEvent::Relay(true), &nonce);
    assert!(matches!(action, CollectAction::Nothing));
}

#[test]
fn collecting_ends_with_the_first_failure() {
    let nonce = [1_u8; 32];
    let (token, pem) = signed_token(&claims(&nonce, matching_events()));
    let reporter = reporter(&pem);
    let id = || "s".to_string();
    let ends = |state: CollectState, event: CollectEvent, expected: AppraisalError| {
        let (next, action) = reporter.collect(state, event, &nonce);
        assert!(matches!(next, CollectState::Done));
        match action {
            CollectAction::Report(Err(error)) => assert_eq!(error, expected),
            _ => panic!("an error is reported"),
        }
    };
    ends(CollectState::Start, CollectEvent::Session(None), AppraisalError::RelayUnavailable);
    ends(CollectState::Opening(id()), CollectEvent::Relay(false), AppraisalError::RelayUnavailable);
    ends(
        CollectState::Evidence(id()),
        CollectEvent::Evidence(Err(AppraisalError::EvidenceCollection)),
        AppraisalError::EvidenceCollection,
    );
    ends(
        CollectState::Trustee(id()),
        CollectEvent::Token(Err(AppraisalError::TrusteeRequest)),
        AppraisalError::TrusteeRequest,
    );
    ends(
        CollectState::Trustee(id()),
        CollectEvent::Token(Ok("no.token.this".to_string())),
        AppraisalError::InvalidAppraisal,
    );
    let (state, _) =
        reporter.collect(CollectState::Trustee(id()), CollectEvent::Token(Ok(token)), &nonce);
    ends(state, CollectEvent::Current(false), AppraisalError::RelayUnavailable);
}
