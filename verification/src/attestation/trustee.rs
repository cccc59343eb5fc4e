//! The trustee: where it is reached, and the key that its appraisals are signed with.

use vstd::prelude::*;
use jsonwebtoken::DecodingKey;
use serde_json::Value;
use url::{Host, Url};
use crate::appraisal::GetSandboxAttestationResponse;
use crate::attestation::claims;
use crate::attestation::claims::{appraised, AppraisalError, AppraisalView};
use crate::attestation::json::{json_of, Json};
use crate::attestation::reference::lists;
use crate::text;
use crate::text::{lowered, together};
use crate::text_map::TextMap;

verus! {

/// The host of a URL.
#[derive(Debug)]
pub enum UrlHost {
    Absent,
    Domain(String),
    Ipv4([u8; 4]),
    Ipv6,
}

/// The parts of a URL.
#[derive(Debug)]
pub struct UrlParts {
    pub scheme: String,
    pub username: String,
    pub has_password: bool,
    pub has_query: bool,
    pub has_fragment: bool,
    pub host: UrlHost,
    pub path: String,
}

/// What the host of a URL is.
pub enum UrlHostView {
    Absent,
    Domain(Seq<char>),
    Ipv4(Seq<u8>),
    Ipv6,
}

/// What the parts of a URL are.
pub struct UrlPartsView {
    pub scheme: Seq<char>,
    pub username: Seq<char>,
    pub has_password: bool,
    pub has_query: bool,
    pub has_fragment: bool,
    pub host: UrlHostView,
    pub path: Seq<char>,
}

impl View for UrlHost {
    type V = UrlHostView;

    open spec fn view(&self) -> UrlHostView {
        match self {
            UrlHost::Absent => UrlHostView::Absent,
            UrlHost::Domain(domain) => UrlHostView::Domain(domain@),
            UrlHost::Ipv4(octets) => UrlHostView::Ipv4(octets@),
            UrlHost::Ipv6 => UrlHostView::Ipv6,
        }
    }
}

impl View for UrlParts {
    type V = UrlPartsView;

    open spec fn view(&self) -> UrlPartsView {
        UrlPartsView {
            scheme: self.scheme@,
            username: self.username@,
            has_password: self.has_password,
            has_query: self.has_query,
            has_fragment: self.has_fragment,
            host: self.host@,
            path: self.path@,
        }
    }
}

/// The parts that `Url::parse` of the `url` crate finds in a text, or why it finds none.
pub uninterp spec fn url_parts(text: Seq<char>) -> Result<UrlPartsView, Seq<char>>;

/// `Url::parse` of the `url` crate, taken apart. What it finds depends on the text alone.
#[verifier::external_body]
fn parse_url(text: &str) -> (result: Result<UrlParts, String>)
    ensures
        match url_parts(text@) {
            Ok(parts) => result matches Ok(p) && p@ == parts,
            Err(reason) => result matches Err(e) && e@ == reason,
        },
{
    let u = Url::parse(text).map_err(|e| e.to_string())?;
    let host = match u.host() {
        None => UrlHost::Absent,
        Some(Host::Domain(d)) => UrlHost::Domain(d.into()),
        Some(Host::Ipv4(a)) => UrlHost::Ipv4(a.octets()),
        Some(Host::Ipv6(_)) => UrlHost::Ipv6,
    };
    Ok(UrlParts {
        scheme: u.scheme().into(),
        username: u.username().into(),
        has_password: u.password().is_some(),
        has_query: u.query().is_some(),
        has_fragment: u.fragment().is_some(),
        path: u.path().into(), host,
    })
}

/// What `Url::set_path` of the `url` crate makes of a URL, in text.
pub uninterp spec fn url_with_path(text: Seq<char>, path: Seq<char>) -> Seq<char>;

/// `Url::set_path` of the `url` crate: the URL with another path. The result depends on the two
/// texts alone.
#[verifier::external_body]
fn set_path(text: &str, path: &str) -> (changed: String)
    requires
        url_parts(text@) is Ok,
    ensures
        changed@ == url_with_path(text@, path@),
{
    let mut u = Url::parse(text).unwrap();
    u.set_path(path);
    u.to_string()
}

/// `path` without the slashes at its end.
pub open spec fn without_end_slashes(path: Seq<char>) -> Seq<char>
    decreases path.len(),
{
    if path.len() > 0 && path.last() == '/' {
        without_end_slashes(path.drop_last())
    } else {
        path
    }
}

fn trim_end_slashes(path: &str) -> (trimmed: String)
    ensures
        trimmed@ == without_end_slashes(path@),
{
    let chars = text::chars_of(path);
    let mut n: usize = chars.len();
    assert(path@.take(n as int) =~= path@);
    while n > 0 && chars[n - 1] == '/'
        invariant
            n <= chars@.len(),
            chars@ == path@,
            without_end_slashes(path@.take(n as int)) == without_end_slashes(path@),
        decreases n,
    {
        assert(path@.take(n as int).drop_last() =~= path@.take(n - 1));
        n = n - 1;
    }
    assert(path@.subrange(0, n as int) =~= path@.take(n as int));
    text::text_of(&chars, 0, n)
}

/// Whether a host is this machine: `localhost`, or an IPv4 address of the loopback network.
pub open spec fn loopback(host: UrlHostView) -> bool {
    match host {
        UrlHostView::Domain(domain) => lowered(domain) == lowered("localhost"@),
        UrlHostView::Ipv4(octets) => octets[0] == 127,
        _ => false,
    }
}

/// Where the trustee appraises evidence, for the URL that is configured, or why it cannot be that.
pub open spec fn attestation_url(parts: Result<UrlPartsView, Seq<char>>, base: Seq<char>) -> Result<
    Seq<char>,
    Seq<char>,
> {
    match parts {
        Err(reason) => Err("invalid attestation_report.trustee_url: "@ + reason),
        Ok(parts) => if parts.scheme != "http"@ && parts.scheme != "https"@ {
            Err("attestation_report.trustee_url must use http or https"@)
        } else if parts.username.len() > 0 || parts.has_password || parts.has_query
            || parts.has_fragment {
            Err("attestation_report.trustee_url must not contain credentials, query, or fragment"@)
        } else if parts.host is Absent {
            Err("attestation_report.trustee_url requires a host"@)
        } else if !loopback(parts.host) {
            Err("attestation_report.trustee_url must use a loopback host"@)
        } else {
            Ok(url_with_path(base, without_end_slashes(parts.path) + "/attestation"@))
        },
    }
}

fn is_loopback(host: &UrlHost) -> (yes: bool)
    ensures
        yes == loopback(host@),
{
    match host {
        UrlHost::Domain(domain) => text::same_ignoring_case(domain.as_str(), "localhost"),
        UrlHost::Ipv4(octets) => octets[0] == 127,
        _ => false,
    }
}

/// What is asked of the parts of the trustee's URL: the path under which evidence is appraised.
pub fn attestation_path(parts: &UrlParts) -> (result: Result<String, String>)
    ensures
        match attestation_url(Ok(parts@), Seq::empty()) {
            Ok(_) => result matches Ok(path) && path@ == without_end_slashes(parts.path@)
                + "/attestation"@,
            Err(reason) => result matches Err(e) && e@ == reason,
        },
{
    if !text::same(parts.scheme.as_str(), "http") && !text::same(parts.scheme.as_str(), "https") {
        return Err("attestation_report.trustee_url must use http or https".to_string());
    }
    if !parts.username.as_str().is_empty() || parts.has_password || parts.has_query
        || parts.has_fragment {
        return Err(
            "attestation_report.trustee_url must not contain credentials, query, or fragment".to_string(),
        );
    }
    if let UrlHost::Absent = parts.host {
        return Err("attestation_report.trustee_url requires a host".to_string());
    }
    if !is_loopback(&parts.host) {
        return Err("attestation_report.trustee_url must use a loopback host".to_string());
    }
    Ok(together(trim_end_slashes(parts.path.as_str()).as_str(), "/attestation"))
}

/// Where the trustee appraises evidence.
pub fn trustee_attestation_url(base: &str) -> (result: Result<String, String>)
    ensures
        match attestation_url(url_parts(base@), base@) {
            Ok(url) => result matches Ok(u) && u@ == url,
            Err(reason) => result matches Err(e) && e@ == reason,
        },
{
    let parts = match parse_url(base) {
        Ok(parts) => parts,
        Err(reason) => {
            return Err(together("invalid attestation_report.trustee_url: ", reason.as_str()));
        },
    };
    match attestation_path(&parts) {
        Ok(path) => Ok(set_path(base, path.as_str())),
        Err(reason) => Err(reason),
    }
}

/// A trustee is on this machine, and its URL holds no credentials.
pub proof fn lemma_trustee_is_local(parts: Result<UrlPartsView, Seq<char>>, base: Seq<char>)
    ensures
        attestation_url(parts, base) is Ok ==> {
            &&& parts matches Ok(p)
            &&& loopback(p.host)
            &&& p.username.len() == 0
            &&& !p.has_password
        },
{
}

/// A key of the `jsonwebtoken` crate.
#[verifier::external_type_specification]
#[verifier::external_body]
pub struct ExDecodingKey(jsonwebtoken::DecodingKey);

/// Why `DecodingKey::from_ec_pem` takes no key from a PEM file; nothing where it takes one.
pub uninterp spec fn key_fault(pem: Seq<u8>) -> Option<Seq<char>>;

/// `DecodingKey::from_ec_pem`: the public key in a PEM file. Whether there is one depends on the
/// bytes alone.
#[verifier::external_body]
fn read_key(pem: &[u8]) -> (result: Result<DecodingKey, String>)
    ensures
        match key_fault(pem@) {
            Some(reason) => result matches Err(e) && e@ == reason,
            None => result is Ok,
        },
{
    DecodingKey::from_ec_pem(pem).map_err(|e| e.to_string())
}

/// The key that appraisals are signed with, beside the PEM file that it was read from.
pub struct AppraisalKey {
    pem: Vec<u8>,
    key: DecodingKey,
}

impl AppraisalKey {
    /// The PEM file that the key was read from.
    pub closed spec fn pem(self) -> Seq<u8> {
        self.pem@
    }

    /// The key in a PEM file.
    pub fn from_ec_pem(pem: Vec<u8>) -> (result: Result<Self, String>)
        ensures
            match key_fault(pem@) {
                Some(reason) => result matches Err(e) && e@ == reason,
                None => result matches Ok(key) && key.pem() == pem@,
            },
    {
        match read_key(pem.as_slice()) {
            Ok(key) => Ok(AppraisalKey { pem, key }),
            Err(reason) => Err(reason),
        }
    }
}

/// The claims of a token that is signed by ES256 with the key in a PEM file.
pub uninterp spec fn signed_claims(token: Seq<char>, pem: Seq<u8>) -> Option<Json>;

/// Whether claims say when they expire.
pub open spec fn expires(claims: Json) -> bool {
    claims.member("exp"@) matches Some(Json::Number(_))
}

/// `jsonwebtoken::decode` for ES256: the claims of a token, where it is signed with the key and
/// has not expired, with the given leeway in seconds, of which none is asked for here. Which
/// claims a token carries, and whether the key signed it, depends on the two alone. If the time of
/// expiry is required, claims that are an object are taken only where it is a number there. Claims
/// that are a list are read by the places of its items: of those it is not said where the time
/// stands. Whether a token has expired depends on the clock: that a token is taken is not said.
#[verifier::external_body]
fn decode_claims(token: &str, key: &AppraisalKey, leeway: u64, required: &[&str]) -> (claims: Option<
    Value,
>)
    requires
        leeway == 0,
    ensures
        claims matches Some(value) ==> signed_claims(token@, key.pem()) == Some(json_of(value)),
        claims matches Some(value) ==> ((exists|i: int|
            0 <= i < required@.len() && (#[trigger] required@[i])@ == "exp"@) && json_of(
            value,
        ) is Object ==> expires(json_of(value))),
{
    let mut validation = jsonwebtoken::Validation::new(jsonwebtoken::Algorithm::ES256);
    validation.leeway = leeway;
    validation.set_required_spec_claims(required);
    match jsonwebtoken::decode::<Value>(token, &key.key, &validation) {
        Ok(data) => Some(data.claims),
        Err(_) => None,
    }
}

/// Whether `appraisal` is what a signed token, which says when it expires, says for `nonce`.
pub open spec fn vouched(
    token: Seq<char>,
    pem: Seq<u8>,
    nonce: Seq<u8>,
    references: Map<Seq<char>, Seq<Seq<char>>>,
    policy: Seq<char>,
    appraisal: AppraisalView,
) -> bool {
    signed_claims(token, pem) matches Some(claims) && expires(claims) && appraised(
        claims,
        nonce,
        references,
        policy,
    ) == Some(appraisal)
}

/// The appraisal in a signed token. One whose signature is not by the key, or whose claims are
/// not an appraisal for the nonce and by the policy, is refused, and so is one that has expired,
/// without any leeway.
pub fn verify_ear(
    token: &str,
    nonce: &[u8; 32],
    decoding_key: &AppraisalKey,
    references: &TextMap<Vec<String>>,
    expected_policy_id: &str,
) -> (result: Result<GetSandboxAttestationResponse, AppraisalError>)
    ensures
        match result {
            Ok(appraisal) => vouched(
                token@,
                decoding_key.pem(),
                nonce@,
                lists(references@),
                expected_policy_id@,
                appraisal@,
            ),
            Err(error) => error == AppraisalError::InvalidAppraisal,
        },
{
    let required: [&str; 1] = ["exp"];
    assert(required@[0]@ == "exp"@);
    match decode_claims(token, decoding_key, 0, &required) {
        Some(claims) => claims::appraisal_from_claims(
            &claims,
            nonce,
            references,
            expected_policy_id,
        ),
        None => Err(AppraisalError::InvalidAppraisal),
    }
}

/// A trustee's URL is taken exactly where it is one of HTTP on this machine, without credentials,
/// query and fragment.
pub proof fn lemma_trustee_urls(parts: Result<UrlPartsView, Seq<char>>, base: Seq<char>)
    ensures
        attestation_url(parts, base) is Ok <==> (parts matches Ok(p) && {
            &&& p.scheme == "http"@ || p.scheme == "https"@
            &&& p.username.len() == 0
            &&& !p.has_password
            &&& !p.has_query
            &&& !p.has_fragment
            &&& (p.host matches UrlHostView::Domain(domain) && lowered(domain) == lowered(
                "localhost"@,
            )) || (p.host matches UrlHostView::Ipv4(octets) && octets[0] == 127)
        }),
{
}

proof fn lemma_slashes_are_cut(path: Seq<char>)
    ensures
        without_end_slashes(path).is_prefix_of(path),
        without_end_slashes(path).len() > 0 ==> without_end_slashes(path).last() != '/',
        forall|i: int| without_end_slashes(path).len() <= i < path.len() ==> path[i] == '/',
    decreases path.len(),
{
    if path.len() > 0 && path.last() == '/' {
        lemma_slashes_are_cut(path.drop_last());
        let kept = without_end_slashes(path);
        assert forall|i: int| kept.len() <= i < path.len() implies path[i] == '/' by {
            if i < path.len() - 1 {
                assert(path.drop_last()[i] == path[i]);
            }
        }
    }
}

/// Evidence is appraised under `/attestation`, below the path of the trustee's URL: what comes
/// before it is that path without the slashes at its end.
pub proof fn lemma_evidence_is_appraised_below_the_base(parts: UrlPartsView, base: Seq<char>)
    requires
        attestation_url(Ok(parts), base) is Ok,
    ensures
        exists|kept: Seq<char>|
            {
                &&& attestation_url(Ok(parts), base) == Ok::<Seq<char>, Seq<char>>(
                    url_with_path(base, #[trigger] (kept + "/attestation"@)),
                )
                &&& kept.is_prefix_of(parts.path)
                &&& kept.len() > 0 ==> kept.last() != '/'
                &&& forall|i: int| kept.len() <= i < parts.path.len() ==> parts.path[i] == '/'
            },
{
    lemma_slashes_are_cut(parts.path);
    let kept = without_end_slashes(parts.path);
    assert(attestation_url(Ok(parts), base) == Ok::<Seq<char>, Seq<char>>(
        url_with_path(base, kept + "/attestation"@),
    ));
}

/// An appraisal is vouched for by a token alone that the key signed, that says when it expires, and
/// whose claims are that appraisal.
pub proof fn lemma_appraisals_come_from_signed_claims(
    token: Seq<char>,
    pem: Seq<u8>,
    nonce: Seq<u8>,
    references: Map<Seq<char>, Seq<Seq<char>>>,
    policy: Seq<char>,
    appraisal: AppraisalView,
)
    ensures
        vouched(token, pem, nonce, references, policy, appraisal) <==> exists|claims: Json|
            {
                &&& signed_claims(token, pem) == Some(claims)
                &&& claims.member("exp"@) is Some && claims.member("exp"@)->0 is Number
                &&& #[trigger] appraised(claims, nonce, references, policy) == Some(appraisal)
            },
{
}

} // verus!
