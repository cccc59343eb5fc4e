//! Who makes a request.

use vstd::prelude::*;
use x509_parser::prelude::{FromDer, X509Certificate};
use crate::text;
use crate::text::{joined, texts};
use crate::text_map::TextMap;

verus! {

/// How a user was identified.
#[derive(Debug, Clone, Copy, PartialEq, Eq, Structural)]
pub enum IdentityProvider {
    Oidc,
    Mtls,
    CloudflareAccess,
    LocalDev,
}

impl IdentityProvider {
    /// The text that stands for the provider.
    pub open spec fn name(self) -> Seq<char> {
        match self {
            IdentityProvider::Oidc => "oidc"@,
            IdentityProvider::Mtls => "mtls"@,
            IdentityProvider::CloudflareAccess => "cloudflare_access"@,
            IdentityProvider::LocalDev => "local_dev"@,
        }
    }
}

/// The text that stands for a provider of identities.
pub fn identity_provider_name(provider: IdentityProvider) -> (name: &'static str)
    ensures
        name@ == provider.name(),
{
    match provider {
        IdentityProvider::Oidc => "oidc",
        IdentityProvider::Mtls => "mtls",
        IdentityProvider::CloudflareAccess => "cloudflare_access",
        IdentityProvider::LocalDev => "local_dev",
    }
}

/// A user's identity.
#[derive(Debug)]
pub struct Identity {
    pub subject: String,
    pub display_name: Option<String>,
    pub roles: Vec<String>,
    pub scopes: Vec<String>,
    pub provider: IdentityProvider,
}

/// How a sandbox was identified.
#[derive(Debug, Clone, Copy, PartialEq, Eq, Structural)]
pub enum SandboxIdentitySource {
    BootstrapJwt,
    BootstrapCert,
    K8sServiceAccount,
}

impl SandboxIdentitySource {
    /// The text that stands for the source.
    pub open spec fn name(self) -> Seq<char> {
        match self {
            SandboxIdentitySource::BootstrapJwt => "bootstrap_jwt"@,
            SandboxIdentitySource::BootstrapCert => "bootstrap_cert"@,
            SandboxIdentitySource::K8sServiceAccount => "k8s_service_account"@,
        }
    }

    pub fn as_str(self) -> (name: &'static str)
        ensures
            name@ == self.name(),
    {
        match self {
            SandboxIdentitySource::BootstrapJwt => "bootstrap_jwt",
            SandboxIdentitySource::BootstrapCert => "bootstrap_cert",
            SandboxIdentitySource::K8sServiceAccount => "k8s_service_account",
        }
    }
}

/// A user who makes a request.
#[derive(Debug)]
pub struct UserPrincipal {
    pub identity: Identity,
}

/// A sandbox that makes a request.
#[derive(Debug)]
pub struct SandboxPrincipal {
    pub sandbox_id: String,
    pub source: SandboxIdentitySource,
    pub trust_domain: Option<String>,
}

/// Who makes a request.
#[derive(Debug)]
pub enum Principal {
    User(UserPrincipal),
    Sandbox(SandboxPrincipal),
    Anonymous,
}

/// The developer for whom requests are made where no authentication is configured.
pub open spec fn dev_user(principal: Principal) -> bool {
    principal matches Principal::User(user) && {
        let identity = user.identity;
        &&& identity.subject@ == "unauthenticated-local-dev"@
        &&& identity.display_name matches Some(name) && name@ == "Unauthenticated Local Dev"@
        &&& texts(identity.roles@) == seq!["openshell-user"@, "openshell-admin"@]
        &&& texts(identity.scopes@) == seq!["openshell:all"@]
        &&& identity.provider == IdentityProvider::LocalDev
    }
}

/// The developer for whom requests are made where no authentication is configured.
pub fn unauthenticated_dev_user_principal() -> (principal: Principal)
    ensures
        dev_user(principal),
{
    let mut roles: Vec<String> = Vec::new();
    roles.push("openshell-user".to_string());
    roles.push("openshell-admin".to_string());
    assert(texts(roles@) =~= seq!["openshell-user"@, "openshell-admin"@]);
    let mut scopes: Vec<String> = Vec::new();
    scopes.push("openshell:all".to_string());
    assert(texts(scopes@) =~= seq!["openshell:all"@]);
    Principal::User(
        UserPrincipal {
            identity: Identity {
                subject: "unauthenticated-local-dev".to_string(),
                display_name: Some("Unauthenticated Local Dev".to_string()),
                roles,
                scopes,
                provider: IdentityProvider::LocalDev,
            },
        },
    )
}

/// The texts of a map.
pub open spec fn text_values(map: Map<Seq<char>, String>) -> Map<Seq<char>, Seq<char>> {
    map.map_values(|s: String| s@)
}

/// `map` with `value` under `key`, where there is a value.
pub open spec fn with_some(
    map: Map<Seq<char>, Seq<char>>,
    key: Seq<char>,
    value: Option<Seq<char>>,
) -> Map<Seq<char>, Seq<char>> {
    match value {
        Some(v) => map.insert(key, v),
        None => map,
    }
}

/// A list of texts with commas between them, where it is not empty.
pub open spec fn list_text(list: Seq<String>) -> Option<Seq<char>> {
    if list.len() > 0 {
        Some(joined(texts(list), ","@))
    } else {
        None
    }
}

/// The text of an optional text.
pub open spec fn some_text(s: Option<String>) -> Option<Seq<char>> {
    match s {
        Some(t) => Some(t@),
        None => None,
    }
}

/// What interceptors are told of a user.
pub open spec fn user_fields(identity: Identity) -> Map<Seq<char>, Seq<char>> {
    let base = Map::<Seq<char>, Seq<char>>::empty().insert("kind"@, "user"@).insert(
        "subject"@,
        identity.subject@,
    );
    let named = with_some(base, "display_name"@, some_text(identity.display_name)).insert(
        "provider"@,
        identity.provider.name(),
    );
    with_some(
        with_some(named, "roles"@, list_text(identity.roles@)),
        "scopes"@,
        list_text(identity.scopes@),
    )
}

/// What interceptors are told of a sandbox.
pub open spec fn sandbox_fields(sandbox: SandboxPrincipal) -> Map<Seq<char>, Seq<char>> {
    with_some(
        Map::<Seq<char>, Seq<char>>::empty().insert("kind"@, "sandbox"@).insert(
            "sandbox_id"@,
            sandbox.sandbox_id@,
        ).insert("source"@, sandbox.source.name()),
        "trust_domain"@,
        some_text(sandbox.trust_domain),
    )
}

/// What interceptors are told of who makes a request.
pub open spec fn principal_fields(principal: Principal) -> Map<Seq<char>, Seq<char>> {
    match principal {
        Principal::User(user) => user_fields(user.identity),
        Principal::Sandbox(sandbox) => sandbox_fields(sandbox),
        Principal::Anonymous => Map::<Seq<char>, Seq<char>>::empty().insert(
            "kind"@,
            "anonymous"@,
        ),
    }
}

fn put(map: &mut TextMap<String>, key: &str, value: String)
    ensures
        text_values(final(map)@) == text_values(old(map)@).insert(key@, value@),
{
    let ghost before = map@;
    map.insert(key.to_string(), value);
    assert(text_values(map@) =~= text_values(before).insert(key@, value@));
}

fn put_list(map: &mut TextMap<String>, key: &str, list: &Vec<String>)
    ensures
        text_values(final(map)@) == with_some(text_values(old(map)@), key@, list_text(list@)),
{
    if list.len() > 0 {
        put(map, key, text::join(list, ","));
    }
}

fn put_some(map: &mut TextMap<String>, key: &str, value: &Option<String>)
    ensures
        text_values(final(map)@) == with_some(text_values(old(map)@), key@, some_text(*value)),
{
    if let Some(v) = value {
        put(map, key, v.clone());
    }
}

fn no_fields() -> (map: TextMap<String>)
    ensures
        text_values(map@) == Map::<Seq<char>, Seq<char>>::empty(),
{
    let map: TextMap<String> = TextMap::new();
    assert(text_values(map@) =~= Map::<Seq<char>, Seq<char>>::empty());
    map
}

/// What interceptors are told of who makes a request.
pub fn gateway_principal_fields(principal: &Principal) -> (fields: TextMap<String>)
    ensures
        text_values(fields@) == principal_fields(*principal),
{
    let mut fields = no_fields();
    match principal {
        Principal::User(user) => {
            let identity = &user.identity;
            put(&mut fields, "kind", "user".to_string());
            put(&mut fields, "subject", identity.subject.clone());
            put_some(&mut fields, "display_name", &identity.display_name);
            put(&mut fields, "provider", identity_provider_name(identity.provider).to_string());
            put_list(&mut fields, "roles", &identity.roles);
            put_list(&mut fields, "scopes", &identity.scopes);
        },
        Principal::Sandbox(sandbox) => {
            put(&mut fields, "kind", "sandbox".to_string());
            put(&mut fields, "sandbox_id", sandbox.sandbox_id.clone());
            put(&mut fields, "source", sandbox.source.as_str().to_string());
            put_some(&mut fields, "trust_domain", &sandbox.trust_domain);
        },
        Principal::Anonymous => {
            put(&mut fields, "kind", "anonymous".to_string());
        },
    }
    fields
}

/// What interceptors are told where nothing is known of who makes a request.
pub fn unknown_gateway_principal() -> (fields: TextMap<String>)
    ensures
        text_values(fields@) == Map::<Seq<char>, Seq<char>>::empty().insert("kind"@, "unknown"@),
{
    let mut fields = no_fields();
    put(&mut fields, "kind", "unknown".to_string());
    fields
}

/// What interceptors are told of who makes a request, where that is known.
pub fn gateway_interceptor_context(principal: Option<&Principal>) -> (fields: TextMap<String>)
    ensures
        text_values(fields@) == match principal {
            Some(p) => principal_fields(*p),
            None => Map::<Seq<char>, Seq<char>>::empty().insert("kind"@, "unknown"@),
        },
{
    match principal {
        Some(p) => gateway_principal_fields(p),
        None => unknown_gateway_principal(),
    }
}

/// The common names and the organizational units of the subject of a certificate in DER form,
/// each where it can be read as text; none where the certificate cannot be read.
pub uninterp spec fn subject_names(der: Seq<u8>) -> Option<
    (Seq<Option<Seq<char>>>, Seq<Option<Seq<char>>>),
>;

/// The texts of a list of optional texts.
pub open spec fn some_texts(list: Seq<Option<String>>) -> Seq<Option<Seq<char>>> {
    list.map_values(|s: Option<String>| some_text(s))
}

/// `X509Certificate::from_der` of the `x509_parser` crate, and the names of the subject that it
/// reads.
#[verifier::external_body]
fn read_subject(der: &Vec<u8>) -> (names: Option<(Vec<Option<String>>, Vec<Option<String>>)>)
    ensures
        names is Some <==> subject_names(der@) is Some,
        names matches Some(n) ==> subject_names(der@) == Some(
            (some_texts(n.0@), some_texts(n.1@)),
        ),
{
    let (_, cert) = X509Certificate::from_der(der).ok()?;
    let subject = cert.subject();
    let common = subject.iter_common_name().map(|a| a.as_str().ok().map(String::from)).collect();
    let units = subject.iter_organizational_unit().map(|a| a.as_str().ok().map(String::from));
    Some((common, units.collect()))
}

/// Those of `list` that are there, in order.
pub open spec fn present(list: Seq<Option<Seq<char>>>) -> Seq<Seq<char>>
    decreases list.len(),
{
    if list.len() == 0 {
        Seq::empty()
    } else {
        match list.last() {
            Some(s) => present(list.drop_last()).push(s),
            None => present(list.drop_last()),
        }
    }
}

/// The subject that the first common name gives.
pub open spec fn subject_of(common: Seq<Option<Seq<char>>>) -> Seq<char> {
    if common.len() > 0 {
        match common[0] {
            Some(name) => name,
            None => "unknown"@,
        }
    } else {
        "unknown"@
    }
}

/// Whether `identity` is that of the subject with the given names.
pub open spec fn identifies(
    identity: Identity,
    common: Seq<Option<Seq<char>>>,
    units: Seq<Option<Seq<char>>>,
) -> bool {
    &&& identity.subject@ == subject_of(common)
    &&& identity.display_name matches Some(name) && name@ == subject_of(common)
    &&& texts(identity.roles@) == present(units)
    &&& identity.scopes@.len() == 0
    &&& identity.provider == IdentityProvider::Mtls
}

/// The identity of a subject: its first common name, and its organizational units as roles.
pub fn identity_from_names(common: &Vec<Option<String>>, units: &Vec<Option<String>>) -> (identity:
    Identity)
    ensures
        identifies(identity, some_texts(common@), some_texts(units@)),
{
    let subject = if common.len() > 0 {
        assert(some_texts(common@)[0] == some_text(common@[0]));
        match &common[0] {
            Some(name) => name.clone(),
            None => "unknown".to_string(),
        }
    } else {
        "unknown".to_string()
    };
    let ghost all = some_texts(units@);
    let mut roles: Vec<String> = Vec::new();
    let n: usize = units.len();
    let mut i: usize = 0;
    assert(texts(roles@) =~= present(all.take(0)));
    while i < n
        invariant
            i <= n,
            n == units@.len(),
            all == some_texts(units@),
            texts(roles@) == present(all.take(i as int)),
        decreases n - i,
    {
        assert(all.take(i as int + 1).drop_last() =~= all.take(i as int));
        assert(all[i as int] == some_text(units@[i as int]));
        if let Some(unit) = &units[i] {
            text::add_text(&mut roles, unit.clone());
        }
        i = i + 1;
    }
    assert(all.take(n as int) =~= all);
    Identity {
        subject: subject.clone(),
        display_name: Some(subject),
        roles,
        scopes: Vec::new(),
        provider: IdentityProvider::Mtls,
    }
}

/// The identity of the peer of a connection, given the certificates that it presented, in DER
/// form; none without a certificate that can be read.
pub fn extract_peer_identity(certificates: &Vec<Vec<u8>>) -> (identity: Option<Identity>)
    ensures
        identity is Some <==> certificates@.len() > 0 && subject_names(certificates@[0]@) is Some,
        identity matches Some(i) ==> {
            let names = subject_names(certificates@[0]@)->Some_0;
            identifies(i, names.0, names.1)
        },
{
    if certificates.len() == 0 {
        return None;
    }
    match read_subject(&certificates[0]) {
        Some((common, units)) => Some(identity_from_names(&common, &units)),
        None => None,
    }
}

/// Interceptors are told of a user what the identity holds, each part under its own name, and
/// nothing of what it does not hold.
pub proof fn lemma_users_are_told_by_name(user: UserPrincipal)
    ensures
        ({
            let fields = principal_fields(Principal::User(user));
            let identity = user.identity;
            &&& fields.dom().contains("kind"@) && fields["kind"@] == "user"@
            &&& fields.dom().contains("subject"@) && fields["subject"@] == identity.subject@
            &&& fields.dom().contains("provider"@) && fields["provider"@]
                == match identity.provider {
                IdentityProvider::Oidc => "oidc"@,
                IdentityProvider::Mtls => "mtls"@,
                IdentityProvider::CloudflareAccess => "cloudflare_access"@,
                IdentityProvider::LocalDev => "local_dev"@,
            }
            &&& fields.dom().contains("display_name"@) <==> identity.display_name is Some
            &&& identity.display_name matches Some(name) ==> fields["display_name"@] == name@
            &&& fields.dom().contains("roles"@) <==> identity.roles@.len() > 0
            &&& identity.roles@.len() > 0 ==> fields["roles"@] == joined(
                texts(identity.roles@),
                ","@,
            )
            &&& fields.dom().contains("scopes"@) <==> identity.scopes@.len() > 0
            &&& identity.scopes@.len() > 0 ==> fields["scopes"@] == joined(
                texts(identity.scopes@),
                ","@,
            )
            &&& forall|name: Seq<char>| #[trigger]
                fields.dom().contains(name) ==> name == "kind"@ || name == "subject"@ || name
                    == "provider"@ || name == "display_name"@ || name == "roles"@ || name
                    == "scopes"@
        }),
{
    reveal_strlit("kind");
    reveal_strlit("subject");
    reveal_strlit("provider");
    reveal_strlit("display_name");
    reveal_strlit("roles");
    reveal_strlit("scopes");
    assert("kind"@.len() == 4 && "subject"@.len() == 7 && "provider"@.len() == 8);
    assert("display_name"@.len() == 12 && "roles"@.len() == 5 && "scopes"@.len() == 6);
}

/// Interceptors are told of a sandbox its identifier, where its identity comes from and its
/// domain of trust, where it has one.
pub proof fn lemma_sandboxes_are_told_by_name(sandbox: SandboxPrincipal)
    ensures
        ({
            let fields = principal_fields(Principal::Sandbox(sandbox));
            &&& fields.dom().contains("kind"@) && fields["kind"@] == "sandbox"@
            &&& fields.dom().contains("sandbox_id"@) && fields["sandbox_id"@]
                == sandbox.sandbox_id@
            &&& fields.dom().contains("source"@) && fields["source"@] == match sandbox.source {
                SandboxIdentitySource::BootstrapJwt => "bootstrap_jwt"@,
                SandboxIdentitySource::BootstrapCert => "bootstrap_cert"@,
                SandboxIdentitySource::K8sServiceAccount => "k8s_service_account"@,
            }
            &&& fields.dom().contains("trust_domain"@) <==> sandbox.trust_domain is Some
            &&& sandbox.trust_domain matches Some(domain) ==> fields["trust_domain"@] == domain@
            &&& forall|name: Seq<char>| #[trigger]
                fields.dom().contains(name) ==> name == "kind"@ || name == "sandbox_id"@ || name
                    == "source"@ || name == "trust_domain"@
        }),
{
    reveal_strlit("kind");
    reveal_strlit("sandbox_id");
    reveal_strlit("source");
    reveal_strlit("trust_domain");
    assert("kind"@.len() == 4 && "sandbox_id"@.len() == 10);
    assert("source"@.len() == 6 && "trust_domain"@.len() == 12);
}

/// Of a caller without a name interceptors are told just that.
pub proof fn lemma_nothing_is_told_of_the_anonymous(name: Seq<char>)
    ensures
        principal_fields(Principal::Anonymous).dom().contains(name) <==> name == "kind"@,
        principal_fields(Principal::Anonymous)["kind"@] == "anonymous"@,
{
}

/// The identity of a peer is by its certificate: its first common name, its readable
/// organizational units as its roles, and no scopes.
pub proof fn lemma_peers_are_named_by_their_certificates(
    identity: Identity,
    common: Seq<Option<Seq<char>>>,
    units: Seq<Option<Seq<char>>>,
)
    requires
        identifies(identity, common, units),
    ensures
        common.len() > 0 ==> (common[0] matches Some(name) ==> identity.subject@ == name),
        common.len() == 0 || common[0] is None ==> identity.subject@ == "unknown"@,
        identity.display_name matches Some(name) && name@ == identity.subject@,
        identity.scopes@.len() == 0,
        identity.provider == IdentityProvider::Mtls,
        identity.roles@.len() <= units.len(),
        (forall|i: int| 0 <= i < units.len() ==> #[trigger] units[i] is Some) ==> {
            &&& identity.roles@.len() == units.len()
            &&& forall|i: int| 0 <= i < units.len() ==> Some(texts(identity.roles@)[i]) == #[trigger] units[i]
        },
{
    lemma_present(units);
    assert(texts(identity.roles@).len() == identity.roles@.len());
}

proof fn lemma_present(list: Seq<Option<Seq<char>>>)
    ensures
        present(list).len() <= list.len(),
        (forall|i: int| 0 <= i < list.len() ==> #[trigger] list[i] is Some) ==> present(list).len()
            == list.len() && forall|i: int|
            0 <= i < list.len() ==> Some(present(list)[i]) == #[trigger] list[i],
    decreases list.len(),
{
    if list.len() > 0 {
        lemma_present(list.drop_last());
        if forall|i: int| 0 <= i < list.len() ==> #[trigger] list[i] is Some {
            assert forall|i: int| 0 <= i < list.len() - 1 implies #[trigger] list.drop_last()[i] is Some by {
                assert(list[i] is Some);
            }
            assert(list[list.len() - 1] is Some);
            assert forall|i: int| 0 <= i < list.len() implies Some(present(list)[i])
                == #[trigger] list[i] by {
                if i < list.len() - 1 {
                    assert(list.drop_last()[i] == list[i]);
                }
            }
        }
    }
}

/// Where no authentication is configured, every request is that of one local user, who is told
/// from those that others vouch for, and has the roles of a user and of an administrator and every
/// scope.
pub proof fn lemma_local_user_may_do_everything(principal: Principal)
    requires
        dev_user(principal),
    ensures
        principal matches Principal::User(user) && {
            &&& user.identity.provider == IdentityProvider::LocalDev
            &&& user.identity.subject@ == "unauthenticated-local-dev"@
            &&& user.identity.roles@.len() == 2
            &&& user.identity.roles@[0]@ == "openshell-user"@
            &&& user.identity.roles@[1]@ == "openshell-admin"@
            &&& user.identity.scopes@.len() == 1
            &&& user.identity.scopes@[0]@ == "openshell:all"@
        },
{
    if let Principal::User(user) = principal {
        assert(texts(user.identity.roles@).len() == user.identity.roles@.len());
        assert(texts(user.identity.scopes@).len() == user.identity.scopes@.len());
        assert(seq!["openshell-user"@, "openshell-admin"@].len() == 2);
        assert(seq!["openshell:all"@].len() == 1);
        assert(texts(user.identity.roles@)[0] == user.identity.roles@[0]@);
        assert(texts(user.identity.roles@)[1] == user.identity.roles@[1]@);
        assert(texts(user.identity.scopes@)[0] == user.identity.scopes@[0]@);
    }
}

} // verus!
