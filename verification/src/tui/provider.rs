//! Providers: how they and their profiles are listed and shown.

use vstd::prelude::*;
use crate::text;
use crate::text::{concatenated, decimal_of, joined, lemma_concatenated_push, signed_decimal_of, texts};
use crate::text_map::TextMap;
use crate::tui::policy::{NetworkBinary, NetworkEndpoint};

verus! {

/// What every stored object carries.
pub struct ObjectMeta {
    pub id: String,
    pub name: String,
    pub resource_version: u64,
    pub labels: TextMap<String>,
}

/// A provider of credentials.
pub struct Provider {
    pub metadata: Option<ObjectMeta>,
    pub provider_type: String,
    pub credentials: TextMap<String>,
    pub config: TextMap<String>,
    /// When each credential runs out, in milliseconds since the epoch.
    pub credential_expires_at_ms: TextMap<i64>,
}

/// What a provider profile is for.
#[derive(Debug, Clone, Copy, PartialEq, Eq, Structural)]
pub enum ProviderProfileCategory {
    Unspecified,
    Other,
    Inference,
    Agent,
    SourceControl,
    Messaging,
    Data,
    Knowledge,
}

/// How a credential is renewed.
#[derive(Debug, Clone, Copy, PartialEq, Eq, Structural)]
pub enum ProviderCredentialRefreshStrategy {
    Unspecified,
    Static,
    External,
    Oauth2RefreshToken,
    Oauth2ClientCredentials,
    GoogleServiceAccountJwt,
    AwsStsAssumeRole,
}

/// How a credential is renewed, and from what.
#[derive(Debug)]
pub struct CredentialRefresh {
    pub strategy: ProviderCredentialRefreshStrategy,
    pub scopes: Vec<String>,
    pub material: Vec<String>,
}

/// A credential that a profile asks for.
#[derive(Debug)]
pub struct ProfileCredential {
    pub name: String,
    pub env_vars: Vec<String>,
    pub required: bool,
    pub refresh: Option<CredentialRefresh>,
}

/// Where a profile's credentials can be found.
#[derive(Debug)]
pub struct ProfileDiscovery {
    pub credentials: Vec<String>,
}

/// What is known of a type of provider.
pub struct ProviderProfile {
    pub id: String,
    pub display_name: String,
    pub description: String,
    pub category: ProviderProfileCategory,
    pub credentials: Vec<ProfileCredential>,
    pub endpoints: Vec<NetworkEndpoint>,
    pub binaries: Vec<NetworkBinary>,
    pub inference_capable: bool,
    pub discovery: Option<ProfileDiscovery>,
}

/// `s` without control characters other than line feeds.
pub open spec fn sanitized(s: Seq<char>) -> Seq<char> {
    s.filter(|c: char| !text::control(c) || c == '\n')
}

/// Sanitizes a string for safe terminal display by filtering control characters.
pub fn sanitize_for_display(s: &str) -> (t: String)
    ensures
        t@ == sanitized(s@),
{
    let a = text::chars_of(s);
    let mut t = String::new();
    let mut i: usize = 0;
    let ghost keep = |c: char| !text::control(c) || c == '\n';
    proof {
        reveal(Seq::filter);
        assert(s@.take(0).filter(keep) =~= Seq::empty());
    }
    while i < a.len()
        invariant
            i <= a@.len(),
            a@ == s@,
            keep == (|c: char| !text::control(c) || c == '\n'),
            t@ == s@.take(i as int).filter(keep),
        decreases a@.len() - i,
    {
        let c: char = a[i];
        if !text::is_control(c) || c == '\n' {
            t.push(c);
        }
        proof {
            reveal(Seq::filter);
            assert(s@.take(i + 1).drop_last() =~= s@.take(i as int));
            assert(s@.take(i + 1).last() == c);
        }
        i = i + 1;
    }
    assert(s@.take(s@.len() as int) =~= s@);
    t
}

/// What sanitizing leaves: no control character but the line feed.
pub proof fn lemma_sanitized(s: Seq<char>, i: int)
    requires
        0 <= i < sanitized(s).len(),
    ensures
        !text::control(sanitized(s)[i]) || sanitized(s)[i] == '\n',
{
    s.lemma_filter_pred(|c: char| !text::control(c) || c == '\n', i);
}

/// One label as `key=value`.
pub open spec fn label_text(labels: TextMap<String>, key: Seq<char>) -> Seq<char> {
    sanitized(key) + "="@ + sanitized(labels@[key]@)
}

/// The labels in the order of their keys, with commas between them.
pub open spec fn labels_text(labels: TextMap<String>) -> Seq<char> {
    joined(labels.keys().map_values(|k: Seq<char>| label_text(labels, k)), ","@)
}

/// Formats object labels as a comma-separated key=value string.
pub fn format_labels(labels: &TextMap<String>) -> (s: String)
    ensures
        s@ == labels_text(*labels),
{
    let ghost all = labels.keys().map_values(|k: Seq<char>| label_text(*labels, k));
    let mut parts: Vec<String> = Vec::new();
    let mut i: usize = 0;
    while i < labels.len()
        invariant
            i <= labels.keys().len(),
            all == labels.keys().map_values(|k: Seq<char>| label_text(*labels, k)),
            texts(parts@) =~= all.take(i as int),
        decreases labels.keys().len() - i,
    {
        let mut part = sanitize_for_display(labels.key_at(i).as_str());
        part.append("=");
        let value = sanitize_for_display(labels.value_at(i).as_str());
        part.append(value.as_str());
        proof {
            assert(part@ == all[i as int]);
            text::lemma_texts_push(parts@, part);
        }
        parts.push(part);
        i = i + 1;
    }
    assert(all.take(all.len() as int) =~= all);
    text::join(&parts, ",")
}

/// Formats object annotations as a comma-separated key=value string.
pub fn format_annotations(annotations: &TextMap<String>) -> (s: String)
    ensures
        s@ == labels_text(*annotations),
{
    format_labels(annotations)
}

impl Provider {
    /// The provider's name, or the empty text.
    pub open spec fn name_text(self) -> Seq<char> {
        match self.metadata {
            Some(m) => m.name@,
            None => ""@,
        }
    }

    /// The provider's identifier, or the empty text.
    pub open spec fn id_text(self) -> Seq<char> {
        match self.metadata {
            Some(m) => m.id@,
            None => ""@,
        }
    }
}

pub fn provider_name(provider: &Provider) -> (name: &str)
    ensures
        name@ == provider.name_text(),
{
    match &provider.metadata {
        Some(m) => m.name.as_str(),
        None => "",
    }
}

pub fn provider_id(provider: &Provider) -> (id: &str)
    ensures
        id@ == provider.id_text(),
{
    match &provider.metadata {
        Some(m) => m.id.as_str(),
        None => "",
    }
}

pub fn provider_resource_version(provider: &Provider) -> (version: u64)
    ensures
        version == (match provider.metadata {
            Some(m) => m.resource_version,
            None => 0,
        }),
{
    match &provider.metadata {
        Some(m) => m.resource_version,
        None => 0,
    }
}

impl ProviderProfileCategory {
    /// The text that stands for the category.
    pub open spec fn name(self) -> Seq<char> {
        match self {
            ProviderProfileCategory::Inference => "inference"@,
            ProviderProfileCategory::Agent => "agent"@,
            ProviderProfileCategory::SourceControl => "source_control"@,
            ProviderProfileCategory::Messaging => "messaging"@,
            ProviderProfileCategory::Data => "data"@,
            ProviderProfileCategory::Knowledge => "knowledge"@,
            ProviderProfileCategory::Other => "other"@,
            ProviderProfileCategory::Unspecified => "other"@,
        }
    }
}

pub fn provider_category_label(category: ProviderProfileCategory) -> (label: &'static str)
    ensures
        label@ == category.name(),
{
    match category {
        ProviderProfileCategory::Inference => "inference",
        ProviderProfileCategory::Agent => "agent",
        ProviderProfileCategory::SourceControl => "source_control",
        ProviderProfileCategory::Messaging => "messaging",
        ProviderProfileCategory::Data => "data",
        ProviderProfileCategory::Knowledge => "knowledge",
        ProviderProfileCategory::Other => "other",
        ProviderProfileCategory::Unspecified => "other",
    }
}

/// The ending of a noun that stands behind `count`.
pub open spec fn plural_text(count: nat) -> Seq<char> {
    if count == 1 {
        ""@
    } else {
        "s"@
    }
}

pub fn plural(count: usize) -> (ending: &'static str)
    ensures
        ending@ == plural_text(count as nat),
{
    if count == 1 {
        ""
    } else {
        "s"
    }
}

impl ProviderCredentialRefreshStrategy {
    /// The text that stands for the strategy.
    pub open spec fn name(self) -> Seq<char> {
        match self {
            ProviderCredentialRefreshStrategy::Static => "static"@,
            ProviderCredentialRefreshStrategy::External => "external"@,
            ProviderCredentialRefreshStrategy::Oauth2RefreshToken => "oauth2_refresh_token"@,
            ProviderCredentialRefreshStrategy::Oauth2ClientCredentials =>
                "oauth2_client_credentials"@,
            ProviderCredentialRefreshStrategy::GoogleServiceAccountJwt =>
                "google_service_account_jwt"@,
            ProviderCredentialRefreshStrategy::AwsStsAssumeRole => "aws_sts_assume_role"@,
            ProviderCredentialRefreshStrategy::Unspecified => "unspecified"@,
        }
    }
}

pub fn refresh_strategy_label(strategy: ProviderCredentialRefreshStrategy) -> (label: &'static str)
    ensures
        label@ == strategy.name(),
{
    match strategy {
        ProviderCredentialRefreshStrategy::Static => "static",
        ProviderCredentialRefreshStrategy::External => "external",
        ProviderCredentialRefreshStrategy::Oauth2RefreshToken => "oauth2_refresh_token",
        ProviderCredentialRefreshStrategy::Oauth2ClientCredentials => "oauth2_client_credentials",
        ProviderCredentialRefreshStrategy::GoogleServiceAccountJwt => "google_service_account_jwt",
        ProviderCredentialRefreshStrategy::AwsStsAssumeRole => "aws_sts_assume_role",
        ProviderCredentialRefreshStrategy::Unspecified => "unspecified",
    }
}

/// What is shown of a secret: nothing of a short one, of a longer one its first and last two
/// characters with at most twenty stars and an ellipsis between them.
pub open spec fn masked(s: Seq<char>) -> Seq<char> {
    if s.len() <= 4 {
        "****"@
    } else {
        s.take(2) + text::repeated(
            '*',
            if s.len() - 4 < 20 {
                (s.len() - 4) as nat
            } else {
                20
            },
        ) + seq!['…'] + s.skip(s.len() - 2)
    }
}

pub fn mask_secret(value: &str) -> (s: String)
    ensures
        s@ == masked(value@),
{
    let a = text::chars_of(value);
    let n: usize = a.len();
    if n <= 4 {
        "****".to_string()
    } else {
        let mut s = text::text_of(&a, 0, 2);
        let stars: usize = if n - 4 < 20 {
            n - 4
        } else {
            20
        };
        let middle = text::repeat_char('*', stars);
        s.append(middle.as_str());
        let ellipsis = text::char_text('…');
        s.append(ellipsis.as_str());
        let tail = text::text_of(&a, n - 2, n);
        s.append(tail.as_str());
        assert(a@.subrange(0, 2) =~= value@.take(2));
        assert(a@.subrange(n - 2, n as int) =~= value@.skip(n - 2));
        s
    }
}

/// Of two secrets with the same length and the same ends the same is shown: what lies between
/// the ends is not.
pub proof fn lemma_masked_secret_hides_its_middle(a: Seq<char>, b: Seq<char>)
    requires
        a.len() == b.len(),
        a.len() > 4 ==> a.take(2) == b.take(2) && a.skip(a.len() - 2) == b.skip(b.len() - 2),
    ensures
        masked(a) == masked(b),
{
}

/// How a character is written inside a quoted YAML scalar.
pub open spec fn yaml_escape(c: char) -> Seq<char> {
    if c == '\\' {
        seq!['\\', '\\']
    } else if c == '"' {
        seq!['\\', '"']
    } else if c == '\n' {
        seq!['\\', 'n']
    } else if c == '\r' {
        seq!['\\', 'r']
    } else if c == '\t' {
        seq!['\\', 't']
    } else {
        seq![c]
    }
}

/// `s` as a quoted YAML scalar.
pub open spec fn yaml_text(s: Seq<char>) -> Seq<char> {
    seq!['"'] + concatenated(s.map_values(|c: char| yaml_escape(c))) + seq!['"']
}

pub fn yaml_scalar(value: &str) -> (s: String)
    ensures
        s@ == yaml_text(value@),
{
    let a = text::chars_of(value);
    let ghost all = value@.map_values(|c: char| yaml_escape(c));
    let mut s = text::char_text('"');
    let mut i: usize = 0;
    assert(all.take(0) =~= Seq::empty());
    assert(s@ =~= seq!['"'] + concatenated(all.take(0)));
    while i < a.len()
        invariant
            i <= a@.len(),
            a@ == value@,
            all == value@.map_values(|c: char| yaml_escape(c)),
            s@ == seq!['"'] + concatenated(all.take(i as int)),
        decreases a@.len() - i,
    {
        let c: char = a[i];
        let ghost before = s@;
        if c == '\\' || c == '"' {
            s.push('\\');
            s.push(c);
        } else if c == '\n' {
            s.push('\\');
            s.push('n');
        } else if c == '\r' {
            s.push('\\');
            s.push('r');
        } else if c == '\t' {
            s.push('\\');
            s.push('t');
        } else {
            s.push(c);
        }
        proof {
            assert(s@ =~= before + yaml_escape(c));
            assert(all.take(i + 1) =~= all.take(i as int).push(yaml_escape(c)));
            lemma_concatenated_push(all.take(i as int), yaml_escape(c));
            assert(s@ =~= seq!['"'] + concatenated(all.take(i + 1)));
        }
        i = i + 1;
    }
    s.push('"');
    assert(all.take(all.len() as int) =~= all);
    assert(s@ =~= yaml_text(value@));
    s
}

proof fn lemma_concatenated_free_of(parts: Seq<Seq<char>>, c: char)
    requires
        forall|i: int| 0 <= i < parts.len() ==> !(#[trigger] parts[i]).contains(c),
    ensures
        !concatenated(parts).contains(c),
    decreases parts.len(),
{
    if parts.len() > 0 {
        let rest = parts.drop_last();
        assert forall|i: int| 0 <= i < rest.len() implies !(#[trigger] rest[i]).contains(c) by {
            assert(rest[i] == parts[i]);
        }
        lemma_concatenated_free_of(rest, c);
        let all = concatenated(parts);
        if all.contains(c) {
            let i = choose|i: int| 0 <= i < all.len() && all[i] == c;
            if i < concatenated(rest).len() {
                assert(concatenated(rest)[i] == c);
            } else {
                assert(parts.last()[i - concatenated(rest).len()] == c);
                assert(parts[parts.len() - 1].contains(c));
            }
        }
    }
}

/// A quoted YAML scalar stands on one line: it holds no line feed, carriage return or tab.
pub proof fn lemma_yaml_text_on_one_line(s: Seq<char>, c: char)
    requires
        c == '\n' || c == '\r' || c == '\t',
    ensures
        !yaml_text(s).contains(c),
{
    let parts = s.map_values(|c: char| yaml_escape(c));
    assert forall|i: int| 0 <= i < parts.len() implies !(#[trigger] parts[i]).contains(c) by {
        assert(parts[i] == yaml_escape(s[i]));
    }
    lemma_concatenated_free_of(parts, c);
    let all = yaml_text(s);
    if all.contains(c) {
        let i = choose|i: int| 0 <= i < all.len() && all[i] == c;
        if 0 < i < all.len() - 1 {
            assert(concatenated(parts)[i - 1] == c);
        }
    }
}

/// The lines of a YAML mapping, one per key, `line` giving the line of a key.
pub open spec fn mapping_lines(keys: Seq<Seq<char>>, line: spec_fn(Seq<char>) -> Seq<char>) -> Seq<
    char,
> {
    concatenated(keys.map_values(line))
}

/// The line of a text value, indented by `indent`.
pub open spec fn yaml_line(indent: Seq<char>, key: Seq<char>, value: Seq<char>) -> Seq<char> {
    indent + key + ": "@ + yaml_text(value) + "\n"@
}

/// Which credentials there are, without their values.
pub open spec fn credential_section(keys: Seq<Seq<char>>) -> Seq<char> {
    if keys.len() == 0 {
        "credentials: {}\n"@
    } else {
        "credentials:\n"@ + mapping_lines(
            keys,
            |k: Seq<char>| "  "@ + k + ": \"<redacted>\"\n"@,
        )
    }
}

/// The configuration.
pub open spec fn config_section(config: TextMap<String>) -> Seq<char> {
    if config.keys().len() == 0 {
        "config: {}\n"@
    } else {
        "config:\n"@ + mapping_lines(
            config.keys(),
            |k: Seq<char>| yaml_line("  "@, k, config@[k]@),
        )
    }
}

/// When the credentials run out.
pub open spec fn expiry_section(expires: TextMap<i64>) -> Seq<char> {
    if expires.keys().len() == 0 {
        Seq::empty()
    } else {
        "credential_expires_at_ms:\n"@ + mapping_lines(
            expires.keys(),
            |k: Seq<char>| "  "@ + k + ": "@ + signed_decimal_of(expires@[k] as int) + "\n"@,
        )
    }
}

/// The labels.
pub open spec fn label_section(labels: TextMap<String>) -> Seq<char> {
    if labels.keys().len() == 0 {
        Seq::empty()
    } else {
        "  labels:\n"@ + mapping_lines(
            labels.keys(),
            |k: Seq<char>| yaml_line("    "@, k, labels@[k]@),
        )
    }
}

/// The metadata.
pub open spec fn metadata_section(metadata: Option<ObjectMeta>) -> Seq<char> {
    match metadata {
        None => Seq::empty(),
        Some(m) => "metadata:\n  id: "@ + yaml_text(m.id@) + "\n  resource_version: "@
            + decimal_of(m.resource_version as nat) + "\n"@ + label_section(m.labels),
    }
}

/// The provider as YAML, with its credentials' values left out.
pub open spec fn redacted_yaml(provider: Provider) -> Seq<char> {
    "name: "@ + yaml_text(provider.name_text()) + "\ntype: "@ + yaml_text(
        provider.provider_type@,
    ) + "\n"@ + credential_section(provider.credentials.keys()) + config_section(provider.config)
        + expiry_section(provider.credential_expires_at_ms) + metadata_section(provider.metadata)
}

/// The lines of a mapping of text values.
fn yaml_lines(map: &TextMap<String>, indent: &str) -> (out: String)
    ensures
        out@ == mapping_lines(map.keys(), |k: Seq<char>| yaml_line(indent@, k, map@[k]@)),
{
    let ghost all = map.keys().map_values(|k: Seq<char>| yaml_line(indent@, k, map@[k]@));
    let mut out = String::new();
    let mut i: usize = 0;
    assert(all.take(0) =~= Seq::empty());
    while i < map.len()
        invariant
            i <= map.keys().len(),
            all == map.keys().map_values(|k: Seq<char>| yaml_line(indent@, k, map@[k]@)),
            out@ == concatenated(all.take(i as int)),
        decreases map.keys().len() - i,
    {
        let mut line = indent.to_string();
        line.append(map.key_at(i).as_str());
        line.append(": ");
        let value = yaml_scalar(map.value_at(i).as_str());
        line.append(value.as_str());
        line.append("\n");
        proof {
            assert(line@ == all[i as int]);
            assert(all.take(i + 1) =~= all.take(i as int).push(line@));
            lemma_concatenated_push(all.take(i as int), line@);
        }
        out.append(line.as_str());
        i = i + 1;
    }
    assert(all.take(all.len() as int) =~= all);
    out
}

fn credential_yaml(credentials: &TextMap<String>) -> (out: String)
    ensures
        out@ == credential_section(credentials.keys()),
{
    if credentials.len() == 0 {
        return "credentials: {}\n".to_string();
    }
    let ghost all = credentials.keys().map_values(
        |k: Seq<char>| "  "@ + k + ": \"<redacted>\"\n"@,
    );
    let mut out = "credentials:\n".to_string();
    let mut i: usize = 0;
    assert(all.take(0) =~= Seq::empty());
    assert(out@ =~= "credentials:\n"@ + concatenated(all.take(0)));
    while i < credentials.len()
        invariant
            i <= credentials.keys().len(),
            all == credentials.keys().map_values(
                |k: Seq<char>| "  "@ + k + ": \"<redacted>\"\n"@,
            ),
            out@ == "credentials:\n"@ + concatenated(all.take(i as int)),
        decreases credentials.keys().len() - i,
    {
        let mut line = "  ".to_string();
        line.append(credentials.key_at(i).as_str());
        line.append(": \"<redacted>\"\n");
        let ghost before = out@;
        out.append(line.as_str());
        proof {
            assert(line@ == all[i as int]);
            assert(all.take(i + 1) =~= all.take(i as int).push(line@));
            lemma_concatenated_push(all.take(i as int), line@);
            assert(out@ =~= "credentials:\n"@ + concatenated(all.take(i + 1)));
        }
        i = i + 1;
    }
    assert(all.take(all.len() as int) =~= all);
    out
}

fn expiry_yaml(expires: &TextMap<i64>) -> (out: String)
    ensures
        out@ == expiry_section(*expires),
{
    if expires.len() == 0 {
        return String::new();
    }
    let ghost all = expires.keys().map_values(
        |k: Seq<char>| "  "@ + k + ": "@ + signed_decimal_of(expires@[k] as int) + "\n"@,
    );
    let mut out = "credential_expires_at_ms:\n".to_string();
    let mut i: usize = 0;
    assert(all.take(0) =~= Seq::empty());
    assert(out@ =~= "credential_expires_at_ms:\n"@ + concatenated(all.take(0)));
    while i < expires.len()
        invariant
            i <= expires.keys().len(),
            all == expires.keys().map_values(
                |k: Seq<char>| "  "@ + k + ": "@ + signed_decimal_of(expires@[k] as int) + "\n"@,
            ),
            out@ == "credential_expires_at_ms:\n"@ + concatenated(all.take(i as int)),
        decreases expires.keys().len() - i,
    {
        let mut line = "  ".to_string();
        line.append(expires.key_at(i).as_str());
        line.append(": ");
        let value = text::signed_decimal(*expires.value_at(i));
        line.append(value.as_str());
        line.append("\n");
        out.append(line.as_str());
        proof {
            assert(line@ == all[i as int]);
            assert(all.take(i + 1) =~= all.take(i as int).push(line@));
            lemma_concatenated_push(all.take(i as int), line@);
            assert(out@ =~= "credential_expires_at_ms:\n"@ + concatenated(all.take(i + 1)));
        }
        i = i + 1;
    }
    assert(all.take(all.len() as int) =~= all);
    out
}

/// The provider as YAML, with its credentials' values left out.
pub fn provider_to_redacted_yaml(provider: &Provider) -> (out: String)
    ensures
        out@ == redacted_yaml(*provider),
{
    let mut out = "name: ".to_string();
    let name = yaml_scalar(provider_name(provider));
    out.append(name.as_str());
    out.append("\ntype: ");
    let kind = yaml_scalar(provider.provider_type.as_str());
    out.append(kind.as_str());
    out.append("\n");
    let credentials = credential_yaml(&provider.credentials);
    out.append(credentials.as_str());

    let mut config = String::new();
    if provider.config.len() == 0 {
        config.append("config: {}\n");
    } else {
        config.append("config:\n");
        let entries = yaml_lines(&provider.config, "  ");
        config.append(entries.as_str());
    }
    assert(config@ =~= config_section(provider.config));
    out.append(config.as_str());

    let expires = expiry_yaml(&provider.credential_expires_at_ms);
    out.append(expires.as_str());

    let mut metadata = String::new();
    match &provider.metadata {
        Some(m) => {
            metadata.append("metadata:\n  id: ");
            let id = yaml_scalar(m.id.as_str());
            metadata.append(id.as_str());
            metadata.append("\n  resource_version: ");
            let version = text::decimal(m.resource_version);
            metadata.append(version.as_str());
            metadata.append("\n");
            let mut labels = String::new();
            if m.labels.len() > 0 {
                labels.append("  labels:\n");
                let entries = yaml_lines(&m.labels, "    ");
                labels.append(entries.as_str());
            }
            assert(labels@ =~= label_section(m.labels));
            metadata.append(labels.as_str());
        },
        None => {},
    }
    assert(metadata@ =~= metadata_section(provider.metadata));
    out.append(metadata.as_str());
    out
}

/// The redacted form gives nothing of a credential's value away: two providers that differ in
/// nothing but those values have the same form.
pub proof fn lemma_redacted_yaml_hides_values(a: Provider, b: Provider)
    requires
        a == (Provider { credentials: a.credentials, ..b }),
        a.credentials.keys() == b.credentials.keys(),
    ensures
        redacted_yaml(a) == redacted_yaml(b),
{
}

/// What is shown of a secret gives away its first and last two characters at most, and nothing of
/// one with four or fewer.
pub proof fn lemma_masked_secrets(s: Seq<char>)
    ensures
        s.len() <= 4 ==> masked(s) == "****"@,
        s.len() > 4 ==> {
            let shown = masked(s);
            let n = shown.len();
            let stars = if s.len() - 4 < 20 {
                s.len() - 4
            } else {
                20
            };
            &&& n == stars + 5
            &&& shown[0] == s[0] && shown[1] == s[1]
            &&& shown[n - 2] == s[s.len() - 2] && shown[n - 1] == s[s.len() - 1]
            &&& shown[n - 3] == '…'
            &&& forall|i: int| 2 <= i < n - 3 ==> #[trigger] shown[i] == '*'
        },
{
}

/// The text that a quoted scalar without its quotes stands for.
pub open spec fn yaml_read(t: Seq<char>) -> Seq<char>
    decreases t.len(),
{
    if t.len() == 0 {
        Seq::empty()
    } else if t[0] == '\\' && t.len() >= 2 {
        seq![
            if t[1] == 'n' {
                '\n'
            } else if t[1] == 'r' {
                '\r'
            } else if t[1] == 't' {
                '\t'
            } else {
                t[1]
            },
        ] + yaml_read(t.skip(2))
    } else {
        seq![t[0]] + yaml_read(t.skip(1))
    }
}

proof fn lemma_read_back(s: Seq<char>)
    ensures
        yaml_read(concatenated(s.map_values(|c: char| yaml_escape(c)))) == s,
    decreases s.len(),
{
    let escape = |c: char| yaml_escape(c);
    let parts = s.map_values(escape);
    if s.len() == 0 {
        assert(parts.len() == 0);
    } else {
        let rest = s.drop_first();
        lemma_read_back(rest);
        let first = yaml_escape(s[0]);
        assert(parts =~= seq![first] + rest.map_values(escape));
        crate::tui::measure::lemma_concatenated_front(first, rest.map_values(escape));
        let t = concatenated(parts);
        let tail = concatenated(rest.map_values(escape));
        assert(t =~= first + tail);
        assert(t[0] == first[0]);
        if first.len() == 2 {
            assert(t[1] == first[1]);
            assert(t.skip(2) =~= tail);
        } else {
            assert(t.skip(1) =~= tail);
        }
        assert(yaml_read(t) =~= seq![s[0]] + yaml_read(tail));
        assert(s =~= seq![s[0]] + rest);
    }
}

/// A quoted scalar stands between quotes and is read back as the text that was written.
pub proof fn lemma_scalars_are_read_back(s: Seq<char>)
    ensures
        ({
            let written = yaml_text(s);
            &&& written.len() >= 2
            &&& written[0] == '"' && written.last() == '"'
            &&& yaml_read(written.subrange(1, written.len() - 1)) == s
        }),
{
    lemma_read_back(s);
    let inner = concatenated(s.map_values(|c: char| yaml_escape(c)));
    let written = yaml_text(s);
    assert(written.subrange(1, written.len() - 1) =~= inner);
}

/// A text without control characters is shown as it is.
pub proof fn lemma_plain_text_is_shown_whole(s: Seq<char>)
    requires
        forall|i: int|
            0 <= i < s.len() ==> (0x20 <= (#[trigger] s[i]) as u32 <= 0x7e || s[i] as u32 >= 0xa0
                || s[i] == '\n'),
    ensures
        sanitized(s) == s,
    decreases s.len(),
{
    reveal(Seq::filter);
    if s.len() > 0 {
        assert forall|i: int| 0 <= i < s.drop_last().len() implies (0x20
            <= (#[trigger] s.drop_last()[i]) as u32 <= 0x7e || s.drop_last()[i] as u32 >= 0xa0
            || s.drop_last()[i] == '\n') by {
            assert(s.drop_last()[i] == s[i]);
        }
        lemma_plain_text_is_shown_whole(s.drop_last());
        assert(s[s.len() - 1] == s.last());
        assert(s.drop_last().push(s.last()) =~= s);
    }
}

/// The redacted form of a provider begins with its name and its type, and then lists the names of
/// its credentials, the value of each withheld.
pub proof fn lemma_redacted_form_begins_with_the_name(provider: Provider)
    ensures
        ({
            let head = "name: "@ + yaml_text(provider.name_text()) + "\ntype: "@ + yaml_text(
                provider.provider_type@,
            ) + "\n"@;
            &&& head.is_prefix_of(redacted_yaml(provider))
            &&& (head + credential_section(provider.credentials.keys())).is_prefix_of(
                redacted_yaml(provider),
            )
        }),
        provider.credentials.keys().len() == 0 ==> credential_section(provider.credentials.keys())
            == "credentials: {}\n"@,
{
    let head = "name: "@ + yaml_text(provider.name_text()) + "\ntype: "@ + yaml_text(
        provider.provider_type@,
    ) + "\n"@;
    let more = head + credential_section(provider.credentials.keys());
    let all = redacted_yaml(provider);
    assert(all.take(head.len() as int) =~= head);
    assert(all.take(more.len() as int) =~= more);
}

/// One more credential is one more line with its value withheld; the lines before stay the same.
pub proof fn lemma_credentials_are_listed_without_values(keys: Seq<Seq<char>>, key: Seq<char>)
    requires
        keys.len() > 0,
    ensures
        credential_section(keys.push(key)) == credential_section(keys) + ("  "@ + key
            + ": \"<redacted>\"\n"@),
        credential_section(seq![key]) == "credentials:\n"@ + ("  "@ + key + ": \"<redacted>\"\n"@),
{
    let line = |k: Seq<char>| "  "@ + k + ": \"<redacted>\"\n"@;
    assert(keys.push(key).map_values(line) =~= keys.map_values(line).push(line(key)));
    text::lemma_concatenated_push(keys.map_values(line), line(key));
    assert(credential_section(keys.push(key)) =~= credential_section(keys) + line(key));
    assert(seq![key].map_values(line) =~= Seq::<Seq<char>>::empty().push(line(key)));
    text::lemma_concatenated_push(Seq::<Seq<char>>::empty(), line(key));
    assert(concatenated(Seq::<Seq<char>>::empty()) =~= Seq::<char>::empty());
    assert(credential_section(seq![key]) =~= "credentials:\n"@ + line(key));
}

/// Each category and each way to renew a credential has its own name.
pub proof fn lemma_names_of_categories()
    ensures
        ProviderProfileCategory::Inference.name() == "inference"@,
        ProviderProfileCategory::Agent.name() == "agent"@,
        ProviderProfileCategory::SourceControl.name() == "source_control"@,
        ProviderProfileCategory::Messaging.name() == "messaging"@,
        ProviderProfileCategory::Data.name() == "data"@,
        ProviderProfileCategory::Knowledge.name() == "knowledge"@,
        ProviderProfileCategory::Other.name() == "other"@,
        ProviderProfileCategory::Unspecified.name() == "other"@,
        ProviderCredentialRefreshStrategy::Static.name() == "static"@,
        ProviderCredentialRefreshStrategy::External.name() == "external"@,
        ProviderCredentialRefreshStrategy::Oauth2RefreshToken.name() == "oauth2_refresh_token"@,
        ProviderCredentialRefreshStrategy::Oauth2ClientCredentials.name()
            == "oauth2_client_credentials"@,
        ProviderCredentialRefreshStrategy::GoogleServiceAccountJwt.name()
            == "google_service_account_jwt"@,
        ProviderCredentialRefreshStrategy::AwsStsAssumeRole.name() == "aws_sts_assume_role"@,
{
}

/// Labels are shown in the order of their keys, each as its key and its value with a sign of
/// equality between them, and commas between the labels.
pub proof fn lemma_labels_are_listed_by_key(labels: TextMap<String>) -> (list: Seq<Seq<char>>)
    ensures
        labels_text(labels) == joined(list, ","@),
        list.len() == labels.keys().len(),
        forall|i: int|
            0 <= i < list.len() ==> #[trigger] list[i] == sanitized(labels.keys()[i]) + "="@
                + sanitized(labels@[labels.keys()[i]]@),
{
    labels.keys().map_values(|k: Seq<char>| label_text(labels, k))
}

} // verus!
