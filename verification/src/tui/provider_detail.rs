//! The provider list and the provider detail modal.

use vstd::prelude::*;
use crate::text;
use crate::text::{decimal_of, joined, lemma_texts_push, lines, signed_decimal_of, texts};
use crate::text_map::{sort_texts, sorts, TextMap};
use crate::tui::keys::{KeyCode, KeyEvent};
use crate::tui::model::ProviderDetailView;
use crate::tui::policy::{NetworkBinary, NetworkEndpoint};
use crate::tui::provider::{
    mask_secret, masked, plural, plural_text, provider_category_label, provider_id, provider_name,
    provider_resource_version, provider_to_redacted_yaml, redacted_yaml, refresh_strategy_label,
    CredentialRefresh, ProfileCredential, Provider, ProviderProfile,
};

verus! {

/// A provider in the list, with its profile where there is one.
pub struct ProviderListEntry {
    pub provider: Provider,
    pub profile: Option<ProviderProfile>,
}

impl ProviderProfile {
    /// What a profile is called: its display name, or its identifier where that is empty.
    pub open spec fn label(self) -> Seq<char> {
        if self.display_name@.len() == 0 {
            self.id@
        } else {
            self.display_name@
        }
    }
}

fn profile_name(profile: &ProviderProfile) -> (s: String)
    ensures
        s@ == profile.label(),
{
    if profile.display_name.as_str().is_empty() {
        profile.id.clone()
    } else {
        profile.display_name.clone()
    }
}

/// The first of `names` for which the provider has a credential.
pub open spec fn first_present(names: Seq<Seq<char>>, credentials: Map<Seq<char>, String>) -> Option<
    Seq<char>,
>
    decreases names.len(),
{
    if names.len() == 0 {
        None
    } else if credentials.dom().contains(names[0]) {
        Some(names[0])
    } else {
        first_present(names.drop_first(), credentials)
    }
}

fn find_present<'a>(names: &'a Vec<String>, credentials: &TextMap<String>) -> (found: Option<
    &'a String,
>)
    ensures
        (match found {
            Some(s) => first_present(texts(names@), credentials@) == Some(s@),
            None => first_present(texts(names@), credentials@) is None,
        }),
{
    let mut i: usize = 0;
    assert(texts(names@).skip(0) =~= texts(names@));
    while i < names.len()
        invariant
            i <= names@.len(),
            first_present(texts(names@).skip(i as int), credentials@) == first_present(
                texts(names@),
                credentials@,
            ),
        decreases names@.len() - i,
    {
        let ghost rest = texts(names@).skip(i as int);
        assert(rest[0] == names@[i as int]@);
        assert(rest.drop_first() =~= texts(names@).skip(i + 1));
        if credentials.contains_key(names[i].as_str()) {
            return Some(&names[i]);
        }
        i = i + 1;
    }
    None
}

/// Whether the provider has what credential `c` of its profile asks for.
pub open spec fn has_required(c: ProfileCredential, credentials: Map<Seq<char>, String>) -> bool {
    c.required && first_present(texts(c.env_vars@), credentials) is Some
}

/// The number of elements for which `p` holds.
pub open spec fn count_where(s: Seq<ProfileCredential>, p: spec_fn(ProfileCredential) -> bool) -> nat
    decreases s.len(),
{
    if s.len() == 0 {
        0
    } else if p(s.last()) {
        count_where(s.drop_last(), p) + 1
    } else {
        count_where(s.drop_last(), p)
    }
}

impl ProviderListEntry {
    /// How many keys the provider stores.
    pub open spec fn stored(self) -> nat {
        self.provider.credentials.keys().len()
    }

    /// The number of keys with its noun.
    pub open spec fn stored_text(self) -> Seq<char> {
        decimal_of(self.stored()) + " key"@ + plural_text(self.stored())
    }

    /// What the list says of the credentials.
    pub open spec fn credential_text(self) -> Seq<char> {
        match self.profile {
            None => self.stored_text(),
            Some(p) => decimal_of(
                count_where(
                    p.credentials@,
                    |c: ProfileCredential| has_required(c, self.provider.credentials@),
                ),
            ) + "/"@ + decimal_of(count_where(p.credentials@, |c: ProfileCredential| c.required))
                + " req, "@ + self.stored_text(),
        }
    }

    /// What the list says of the policy.
    pub open spec fn policy_text(self) -> Seq<char> {
        match self.profile {
            None => "no profile"@,
            Some(p) => decimal_of(p.endpoints@.len()) + " endpoint"@ + plural_text(
                p.endpoints@.len(),
            ) + ", "@ + decimal_of(p.binaries@.len()) + " bin"@ + plural_text(p.binaries@.len()) + (
            if p.inference_capable {
                ", inference"@
            } else {
                ""@
            }),
        }
    }

    pub fn name(&self) -> (name: &str)
        ensures
            name@ == self.provider.name_text(),
    {
        provider_name(&self.provider)
    }

    pub fn profile_label(&self) -> (label: String)
        ensures
            label@ == (match self.profile {
                Some(p) => p.label(),
                None => self.provider.provider_type@ + " (unprofiled)"@,
            }),
    {
        match &self.profile {
            Some(p) => profile_name(p),
            None => {
                let mut s = self.provider.provider_type.clone();
                s.append(" (unprofiled)");
                s
            },
        }
    }

    pub fn category_label(&self) -> (label: &'static str)
        ensures
            label@ == (match self.profile {
                Some(p) => p.category.name(),
                None => "legacy"@,
            }),
    {
        match &self.profile {
            Some(p) => provider_category_label(p.category),
            None => "legacy",
        }
    }

    fn stored_summary(&self) -> (s: String)
        ensures
            s@ == self.stored_text(),
    {
        let stored: usize = self.provider.credentials.len();
        let mut s = text::decimal(stored as u64);
        s.append(" key");
        s.append(plural(stored));
        s
    }

    pub fn credential_summary(&self) -> (s: String)
        ensures
            s@ == self.credential_text(),
    {
        let stored = self.stored_summary();
        let profile = match &self.profile {
            None => {
                return stored;
            },
            Some(p) => p,
        };
        let ghost all = profile.credentials@;
        let ghost asked = |c: ProfileCredential| c.required;
        let ghost met = |c: ProfileCredential| has_required(c, self.provider.credentials@);
        let mut required: usize = 0;
        let mut present: usize = 0;
        let mut i: usize = 0;
        assert(all.take(0) =~= Seq::empty());
        while i < profile.credentials.len()
            invariant
                i <= all.len(),
                all == profile.credentials@,
                asked == (|c: ProfileCredential| c.required),
                met == (|c: ProfileCredential| has_required(c, self.provider.credentials@)),
                required <= i,
                present <= i,
                required == count_where(all.take(i as int), asked),
                present == count_where(all.take(i as int), met),
            decreases all.len() - i,
        {
            let c = &profile.credentials[i];
            proof {
                assert(all.take(i + 1).drop_last() =~= all.take(i as int));
                assert(all.take(i + 1).last() == *c);
            }
            if c.required {
                required = required + 1;
                if find_present(&c.env_vars, &self.provider.credentials).is_some() {
                    present = present + 1;
                }
            }
            i = i + 1;
        }
        assert(all.take(all.len() as int) =~= all);
        let mut s = text::decimal(present as u64);
        s.append("/");
        let total = text::decimal(required as u64);
        s.append(total.as_str());
        s.append(" req, ");
        s.append(stored.as_str());
        proof {
            assert(s@ =~= self.credential_text());
        }
        s
    }

    pub fn policy_summary(&self) -> (s: String)
        ensures
            s@ == self.policy_text(),
    {
        match &self.profile {
            None => "no profile".to_string(),
            Some(p) => {
                let mut s = text::decimal(p.endpoints.len() as u64);
                s.append(" endpoint");
                s.append(plural(p.endpoints.len()));
                s.append(", ");
                let binaries = text::decimal(p.binaries.len() as u64);
                s.append(binaries.as_str());
                s.append(" bin");
                s.append(plural(p.binaries.len()));
                if p.inference_capable {
                    s.append(", inference");
                } else {
                    s.append("");
                }
                s
            },
        }
    }
}

/// When the credential under `key` runs out, where that is known.
pub open spec fn expiry_text(expires: Map<Seq<char>, i64>, key: Option<Seq<char>>) -> Seq<char> {
    match key {
        Some(k) => if expires.dom().contains(k) && expires[k] > 0 {
            " expires="@ + signed_decimal_of(expires[k] as int)
        } else {
            ""@
        },
        None => ""@,
    }
}

fn expiry_label(expires: &TextMap<i64>, key: Option<&str>) -> (s: String)
    ensures
        s@ == expiry_text(
            expires@,
            match key {
                Some(k) => Some(k@),
                None => None,
            },
        ),
{
    if let Some(k) = key {
        if let Some(at) = expires.get(k) {
            if *at > 0 {
                let mut s = " expires=".to_string();
                let digits = text::signed_decimal(*at);
                s.append(digits.as_str());
                return s;
            }
        }
    }
    "".to_string()
}

/// The line for a stored credential of a provider without a profile.
pub open spec fn stored_line(provider: Provider, key: Seq<char>) -> Seq<char> {
    key + ": "@ + masked(provider.credentials@[key]@) + expiry_text(
        provider.credential_expires_at_ms@,
        Some(key),
    )
}

/// The line for a credential that a profile asks for.
pub open spec fn asked_line(provider: Provider, c: ProfileCredential) -> Seq<char> {
    let present = first_present(texts(c.env_vars@), provider.credentials@);
    c.name@ + " ("@ + (if c.required {
        "required"@
    } else {
        "optional"@
    }) + ") env=["@ + (if c.env_vars@.len() == 0 {
        "<none>"@
    } else {
        joined(texts(c.env_vars@), ", "@)
    }) + "] "@ + (if present is Some {
        "present"@
    } else {
        "missing"@
    }) + expiry_text(provider.credential_expires_at_ms@, present)
}

/// What the modal says of the credentials.
pub open spec fn credential_lines(provider: Provider, profile: Option<ProviderProfile>) -> Seq<
    Seq<char>,
> {
    match profile {
        None => if provider.credentials.keys().len() == 0 {
            seq!["<none>"@]
        } else {
            provider.credentials.keys().map_values(|k: Seq<char>| stored_line(provider, k))
        },
        Some(p) => p.credentials@.map_values(|c: ProfileCredential| asked_line(provider, c)),
    }
}

fn show_credentials(provider: &Provider, profile: Option<&ProviderProfile>) -> (out: Vec<String>)
    ensures
        texts(out@) == credential_lines(*provider, opt(profile)),
{
    let mut out: Vec<String> = Vec::new();
    match profile {
        None => {
            let stored = &provider.credentials;
            if stored.len() == 0 {
                out.push("<none>".to_string());
                assert(texts(out@) =~= seq!["<none>"@]);
                return out;
            }
            let ghost all = stored.keys().map_values(|k: Seq<char>| stored_line(*provider, k));
            let mut i: usize = 0;
            while i < stored.len()
                invariant
                    i <= stored.keys().len(),
                    *stored == provider.credentials,
                    all == stored.keys().map_values(|k: Seq<char>| stored_line(*provider, k)),
                    texts(out@) =~= all.take(i as int),
                decreases stored.keys().len() - i,
            {
                let key = stored.key_at(i);
                let mut line = key.clone();
                line.append(": ");
                let shown = mask_secret(stored.value_at(i).as_str());
                line.append(shown.as_str());
                let expiry = expiry_label(&provider.credential_expires_at_ms, Some(key.as_str()));
                line.append(expiry.as_str());
                proof {
                    assert(line@ == all[i as int]);
                    lemma_texts_push(out@, line);
                }
                out.push(line);
                i = i + 1;
            }
            assert(all.take(all.len() as int) =~= all);
        },
        Some(p) => {
            let ghost all = p.credentials@.map_values(
                |c: ProfileCredential| asked_line(*provider, c),
            );
            let mut i: usize = 0;
            while i < p.credentials.len()
                invariant
                    i <= p.credentials@.len(),
                    all == p.credentials@.map_values(
                        |c: ProfileCredential| asked_line(*provider, c),
                    ),
                    texts(out@) =~= all.take(i as int),
                decreases p.credentials@.len() - i,
            {
                let line = show_asked(provider, &p.credentials[i]);
                proof {
                    assert(line@ == all[i as int]);
                    lemma_texts_push(out@, line);
                }
                out.push(line);
                i = i + 1;
            }
            assert(all.take(all.len() as int) =~= all);
        },
    }
    out
}

fn show_asked(provider: &Provider, c: &ProfileCredential) -> (line: String)
    ensures
        line@ == asked_line(*provider, *c),
{
    let present = find_present(&c.env_vars, &provider.credentials);
    let mut line = c.name.clone();
    line.append(" (");
    line.append(
        if c.required {
            "required"
        } else {
            "optional"
        },
    );
    line.append(") env=[");
    let env_vars = if c.env_vars.len() == 0 {
        "<none>".to_string()
    } else {
        text::join(&c.env_vars, ", ")
    };
    line.append(env_vars.as_str());
    line.append("] ");
    line.append(
        if present.is_some() {
            "present"
        } else {
            "missing"
        },
    );
    let expiry = match present {
        Some(key) => expiry_label(&provider.credential_expires_at_ms, Some(key.as_str())),
        None => expiry_label(&provider.credential_expires_at_ms, None),
    };
    line.append(expiry.as_str());
    line
}

/// The value behind an optional reference.
pub open spec fn opt<T>(value: Option<&T>) -> Option<T> {
    match value {
        Some(v) => Some(*v),
        None => None,
    }
}

/// The configuration entries as `key=value`, not yet in order.
pub open spec fn config_pairs(config: TextMap<String>) -> Seq<Seq<char>> {
    config.keys().map_values(|k: Seq<char>| k + "="@ + config@[k]@)
}

/// Whether `shown` is what the modal says of the configuration: its entries in order.
pub open spec fn config_shown(config: TextMap<String>, shown: Seq<Seq<char>>) -> bool {
    if config.keys().len() == 0 {
        shown == seq!["<none>"@]
    } else {
        sorts(config_pairs(config), shown)
    }
}

fn show_config(config: &TextMap<String>) -> (out: Vec<String>)
    ensures
        config_shown(*config, texts(out@)),
{
    let ghost all = config_pairs(*config);
    let mut pairs: Vec<String> = Vec::new();
    let mut i: usize = 0;
    while i < config.len()
        invariant
            i <= config.keys().len(),
            all == config_pairs(*config),
            texts(pairs@) =~= all.take(i as int),
        decreases config.keys().len() - i,
    {
        let mut pair = config.key_at(i).clone();
        pair.append("=");
        pair.append(config.value_at(i).as_str());
        proof {
            assert(pair@ == all[i as int]);
            lemma_texts_push(pairs@, pair);
        }
        pairs.push(pair);
        i = i + 1;
    }
    assert(all.take(all.len() as int) =~= all);
    if pairs.len() == 0 {
        pairs.push("<none>".to_string());
        assert(texts(pairs@) =~= seq!["<none>"@]);
        return pairs;
    }
    sort_texts(&pairs)
}

/// The line for an endpoint of a profile.
pub open spec fn endpoint_line(e: NetworkEndpoint) -> Seq<char> {
    e.host@ + ":"@ + decimal_of(e.port as nat) + " "@ + (if e.protocol@.len() == 0 {
        "l4"@
    } else {
        e.protocol@
    }) + " "@ + (if e.access@.len() > 0 {
        e.access@
    } else if e.rules@.len() == 0 {
        "custom"@
    } else {
        "rules"@
    }) + (if e.path@.len() == 0 {
        ""@
    } else {
        " path="@ + e.path@
    })
}

fn show_endpoint(e: &NetworkEndpoint) -> (line: String)
    ensures
        line@ == endpoint_line(*e),
{
    let mut line = e.host.clone();
    line.append(":");
    let port = text::decimal(e.port as u64);
    line.append(port.as_str());
    line.append(" ");
    line.append(
        if e.protocol.as_str().is_empty() {
            "l4"
        } else {
            e.protocol.as_str()
        },
    );
    line.append(" ");
    line.append(
        if !e.access.as_str().is_empty() {
            e.access.as_str()
        } else if e.rules.len() == 0 {
            "custom"
        } else {
            "rules"
        },
    );
    let mut path = "".to_string();
    if !e.path.as_str().is_empty() {
        path = " path=".to_string();
        path.append(e.path.as_str());
    }
    line.append(path.as_str());
    line
}

/// The lines for the programs of a profile: their number, the first four, and how many more
/// there are.
pub open spec fn binary_lines(binaries: Seq<NetworkBinary>) -> Seq<Seq<char>> {
    if binaries.len() == 0 {
        Seq::empty()
    } else {
        let shown = if binaries.len() < 4 {
            binaries
        } else {
            binaries.take(4)
        };
        let head = seq!["Binaries: "@ + decimal_of(binaries.len())] + shown.map_values(
            |b: NetworkBinary| "  "@ + b.path@,
        );
        if binaries.len() > 4 {
            head.push("  ... "@ + decimal_of((binaries.len() - 4) as nat) + " more"@)
        } else {
            head
        }
    }
}

fn show_binaries(binaries: &Vec<NetworkBinary>) -> (out: Vec<String>)
    ensures
        texts(out@) == binary_lines(binaries@),
{
    let mut out: Vec<String> = Vec::new();
    let n: usize = binaries.len();
    if n == 0 {
        assert(texts(out@) =~= Seq::empty());
        return out;
    }
    let mut first = "Binaries: ".to_string();
    let count = text::decimal(n as u64);
    first.append(count.as_str());
    out.push(first);
    let shown: usize = if n < 4 {
        n
    } else {
        4
    };
    let ghost list = if n < 4 {
        binaries@
    } else {
        binaries@.take(4)
    };
    let ghost rows = list.map_values(|b: NetworkBinary| "  "@ + b.path@);
    let mut i: usize = 0;
    assert(texts(out@) =~= seq![first@] + rows.take(0));
    while i < shown
        invariant
            i <= shown <= n,
            n == binaries@.len(),
            list.len() == shown,
            forall|j: int| 0 <= j < shown ==> #[trigger] list[j] == binaries@[j],
            rows == list.map_values(|b: NetworkBinary| "  "@ + b.path@),
            texts(out@) == seq![first@] + rows.take(i as int),
        decreases shown - i,
    {
        let mut row = "  ".to_string();
        row.append(binaries[i].path.as_str());
        proof {
            assert(list[i as int] == binaries@[i as int]);
            assert(row@ == rows[i as int]);
            lemma_texts_push(out@, row);
            assert(rows.take(i + 1) =~= rows.take(i as int).push(row@));
            assert((seq![first@] + rows.take(i as int)).push(row@) =~= seq![first@] + rows.take(
                i + 1,
            ));
        }
        out.push(row);
        i = i + 1;
    }
    assert(rows.take(rows.len() as int) =~= rows);
    if n > 4 {
        let mut more = "  ... ".to_string();
        let rest = text::decimal((n - 4) as u64);
        more.append(rest.as_str());
        more.append(" more");
        proof {
            lemma_texts_push(out@, more);
        }
        out.push(more);
    }
    out
}

/// What the modal says of the policy.
pub open spec fn policy_lines(profile: Option<ProviderProfile>) -> Seq<Seq<char>> {
    match profile {
        None => seq!["No provider profile found; no v2 policy metadata."@],
        Some(p) => (if p.endpoints@.len() == 0 {
            seq!["No profile endpoints."@]
        } else {
            p.endpoints@.map_values(|e: NetworkEndpoint| endpoint_line(e))
        }) + binary_lines(p.binaries@),
    }
}

fn append_all(out: &mut Vec<String>, more: Vec<String>)
    ensures
        texts(final(out)@) == texts(old(out)@) + texts(more@),
{
    let mut rest = more;
    out.append(&mut rest);
    assert(texts(out@) =~= texts(old(out)@) + texts(more@));
}

fn show_policy(profile: Option<&ProviderProfile>) -> (out: Vec<String>)
    ensures
        texts(out@) == policy_lines(opt(profile)),
{
    let mut out: Vec<String> = Vec::new();
    match profile {
        None => {
            out.push("No provider profile found; no v2 policy metadata.".to_string());
            assert(texts(out@) =~= policy_lines(opt(profile)));
        },
        Some(p) => {
            let ghost all = p.endpoints@.map_values(|e: NetworkEndpoint| endpoint_line(e));
            let mut i: usize = 0;
            while i < p.endpoints.len()
                invariant
                    i <= p.endpoints@.len(),
                    all == p.endpoints@.map_values(|e: NetworkEndpoint| endpoint_line(e)),
                    texts(out@) =~= all.take(i as int),
                decreases p.endpoints@.len() - i,
            {
                let line = show_endpoint(&p.endpoints[i]);
                proof {
                    assert(line@ == all[i as int]);
                    lemma_texts_push(out@, line);
                }
                out.push(line);
                i = i + 1;
            }
            assert(all.take(all.len() as int) =~= all);
            if out.len() == 0 {
                out.push("No profile endpoints.".to_string());
                assert(texts(out@) =~= seq!["No profile endpoints."@]);
            }
            let binaries = show_binaries(&p.binaries);
            append_all(&mut out, binaries);
        },
    }
    out
}

/// What the modal says of where credentials can be found.
pub open spec fn discovery_lines(profile: Option<ProviderProfile>) -> Seq<Seq<char>> {
    match profile {
        Some(p) => match p.discovery {
            Some(d) => if d.credentials@.len() > 0 {
                texts(d.credentials@)
            } else {
                seq!["<none>"@]
            },
            None => seq!["<none>"@],
        },
        None => seq!["<none>"@],
    }
}

fn single(line: &str) -> (out: Vec<String>)
    ensures
        texts(out@) == seq![line@],
{
    let mut out: Vec<String> = Vec::new();
    out.push(line.to_string());
    assert(texts(out@) =~= seq![line@]);
    out
}

fn show_discovery(profile: Option<&ProviderProfile>) -> (out: Vec<String>)
    ensures
        texts(out@) == discovery_lines(opt(profile)),
{
    if let Some(p) = profile {
        if let Some(d) = &p.discovery {
            if d.credentials.len() > 0 {
                return text::copy_texts(&d.credentials);
            }
        }
    }
    single("<none>")
}

/// The line for how a credential is renewed.
pub open spec fn refresh_line(name: Seq<char>, refresh: CredentialRefresh) -> Seq<char> {
    name + ": "@ + refresh.strategy.name() + " scopes=["@ + joined(texts(refresh.scopes@), ", "@)
        + "] material="@ + decimal_of(refresh.material@.len()) + " key"@ + plural_text(
        refresh.material@.len(),
    )
}

/// The lines for the credentials that are renewed.
pub open spec fn renewed_lines(credentials: Seq<ProfileCredential>) -> Seq<Seq<char>>
    decreases credentials.len(),
{
    if credentials.len() == 0 {
        Seq::empty()
    } else {
        let before = renewed_lines(credentials.drop_last());
        match credentials.last().refresh {
            Some(r) => before.push(refresh_line(credentials.last().name@, r)),
            None => before,
        }
    }
}

/// What the modal says of how credentials are renewed.
pub open spec fn refresh_lines(profile: Option<ProviderProfile>) -> Seq<Seq<char>> {
    match profile {
        None => seq!["No profile refresh metadata."@],
        Some(p) => if renewed_lines(p.credentials@).len() == 0 {
            seq!["No refresh metadata in profile."@]
        } else {
            renewed_lines(p.credentials@)
        },
    }
}

fn show_refresh_line(name: &str, refresh: &CredentialRefresh) -> (line: String)
    ensures
        line@ == refresh_line(name@, *refresh),
{
    let mut line = name.to_string();
    line.append(": ");
    line.append(refresh_strategy_label(refresh.strategy));
    line.append(" scopes=[");
    let scopes = text::join(&refresh.scopes, ", ");
    line.append(scopes.as_str());
    line.append("] material=");
    let count = text::decimal(refresh.material.len() as u64);
    line.append(count.as_str());
    line.append(" key");
    line.append(plural(refresh.material.len()));
    line
}

fn show_refresh(profile: Option<&ProviderProfile>) -> (out: Vec<String>)
    ensures
        texts(out@) == refresh_lines(opt(profile)),
{
    let p = match profile {
        None => {
            return single("No profile refresh metadata.");
        },
        Some(p) => p,
    };
    let mut out: Vec<String> = Vec::new();
    let mut i: usize = 0;
    let ghost all = p.credentials@;
    assert(all.take(0) =~= Seq::empty());
    assert(texts(out@) =~= Seq::empty());
    while i < p.credentials.len()
        invariant
            i <= all.len(),
            all == p.credentials@,
            texts(out@) == renewed_lines(all.take(i as int)),
        decreases all.len() - i,
    {
        let c = &p.credentials[i];
        proof {
            assert(all.take(i + 1).drop_last() =~= all.take(i as int));
            assert(all.take(i + 1).last() == *c);
        }
        if let Some(r) = &c.refresh {
            let line = show_refresh_line(c.name.as_str(), r);
            proof {
                lemma_texts_push(out@, line);
            }
            out.push(line);
        }
        i = i + 1;
    }
    assert(all.take(all.len() as int) =~= all);
    if out.len() == 0 {
        return single("No refresh metadata in profile.");
    }
    out
}

/// The profile of the first entry for the provider with identifier `id`.
pub open spec fn profile_for(entries: Seq<ProviderListEntry>, id: Seq<char>) -> Option<
    ProviderProfile,
>
    decreases entries.len(),
{
    if entries.len() == 0 {
        None
    } else if entries[0].provider.id_text() == id {
        entries[0].profile
    } else {
        profile_for(entries.drop_first(), id)
    }
}

fn find_profile<'a>(entries: &'a Vec<ProviderListEntry>, id: &str) -> (profile: Option<
    &'a ProviderProfile,
>)
    ensures
        opt(profile) == profile_for(entries@, id@),
{
    let mut i: usize = 0;
    assert(entries@.skip(0) =~= entries@);
    while i < entries.len()
        invariant
            i <= entries@.len(),
            profile_for(entries@.skip(i as int), id@) == profile_for(entries@, id@),
        decreases entries@.len() - i,
    {
        proof {
            assert(entries@.skip(i as int).drop_first() =~= entries@.skip(i + 1));
            assert(entries@.skip(i as int)[0] == entries@[i as int]);
        }
        if text::same(provider_id(&entries[i].provider), id) {
            return entries[i].profile.as_ref();
        }
        i = i + 1;
    }
    None
}

/// The view of an optional text.
pub open spec fn opt_text(s: Option<String>) -> Option<Seq<char>> {
    match s {
        Some(t) => Some(t@),
        None => None,
    }
}

/// Whether `view` is what the modal shows of `provider`, given its profile and that profile's
/// YAML form.
pub open spec fn shows_provider(
    provider: Provider,
    profile: Option<ProviderProfile>,
    profile_yaml: Option<String>,
    view: ProviderDetailView,
) -> bool {
    &&& view.name@ == provider.name_text()
    &&& view.provider_id@ == provider.id_text()
    &&& view.provider_type@ == provider.provider_type@
    &&& view.resource_version == match provider.metadata {
        Some(m) => m.resource_version,
        None => 0,
    }
    &&& view.summary_scroll == 0
    &&& !view.show_raw_profile
    &&& !view.show_raw_provider
    &&& view.raw_profile_scroll == 0
    &&& view.raw_provider_scroll == 0
    &&& view.raw_profile_yaml == if profile is Some {
        profile_yaml
    } else {
        None
    }
    &&& view.raw_provider_yaml@ == redacted_yaml(provider)
    &&& opt_text(view.profile_name) == match profile {
        Some(p) => Some(p.label()),
        None => None,
    }
    &&& opt_text(view.profile_category) == match profile {
        Some(p) => Some(p.category.name()),
        None => None,
    }
    &&& opt_text(view.profile_description) == match profile {
        Some(p) => if p.description@.len() > 0 {
            Some(p.description@)
        } else {
            None
        },
        None => None,
    }
    &&& texts(view.credential_lines@) == credential_lines(provider, profile)
    &&& config_shown(provider.config, texts(view.config_lines@))
    &&& texts(view.policy_lines@) == policy_lines(profile)
    &&& texts(view.discovery_lines@) == discovery_lines(profile)
    &&& texts(view.refresh_lines@) == refresh_lines(profile)
}

/// What the modal shows of `provider`; `profile_yaml` is the YAML form of its profile.
pub fn provider_detail(
    entries: &Vec<ProviderListEntry>,
    provider: &Provider,
    profile_yaml: Option<String>,
) -> (view: ProviderDetailView)
    ensures
        shows_provider(
            *provider,
            profile_for(entries@, provider.id_text()),
            profile_yaml,
            view,
        ),
{
    let profile = find_profile(entries, provider_id(provider));
    let credential_lines = show_credentials(provider, profile);
    let config_lines = show_config(&provider.config);
    let policy_lines = show_policy(profile);
    let discovery_lines = show_discovery(profile);
    let refresh_lines = show_refresh(profile);
    let raw_profile_yaml = if profile.is_some() {
        profile_yaml
    } else {
        None
    };
    let mut profile_title: Option<String> = None;
    let mut profile_category: Option<String> = None;
    let mut profile_description: Option<String> = None;
    if let Some(p) = profile {
        profile_title = Some(profile_name(p));
        profile_category = Some(provider_category_label(p.category).to_string());
        if !p.description.as_str().is_empty() {
            profile_description = Some(p.description.clone());
        }
    }
    ProviderDetailView {
        name: provider_name(provider).to_string(),
        provider_id: provider_id(provider).to_string(),
        provider_type: provider.provider_type.clone(),
        resource_version: provider_resource_version(provider),
        summary_scroll: 0,
        show_raw_profile: false,
        show_raw_provider: false,
        raw_profile_scroll: 0,
        raw_provider_scroll: 0,
        raw_profile_yaml,
        raw_provider_yaml: provider_to_redacted_yaml(provider),
        profile_name: profile_title,
        profile_category,
        profile_description,
        credential_lines,
        config_lines,
        policy_lines,
        discovery_lines,
        refresh_lines,
    }
}

/// Where a scroll of one line down from `scroll` ends, in a text of `n` lines.
pub open spec fn one_down(scroll: usize, n: nat) -> int {
    let last = if n > 0 {
        n - 1
    } else {
        0
    };
    if scroll + 1 < last {
        scroll + 1
    } else {
        last
    }
}

/// `n` less one, but not below zero.
pub open spec fn one_less(n: usize) -> usize {
    if n > 0 {
        (n - 1) as usize
    } else {
        0
    }
}

impl ProviderDetailView {
    /// The scroll offsets can be moved on.
    pub open spec fn wf(self) -> bool {
        self.raw_profile_scroll < usize::MAX && self.raw_provider_scroll < usize::MAX
    }

    /// Whether a key press closes the modal.
    pub open spec fn closes(self, key: KeyEvent) -> bool {
        key.code == KeyCode::Enter || (key.code == KeyCode::Esc && !self.show_raw_profile
            && !self.show_raw_provider)
    }

    /// The modal after a key press that does not close it.
    pub open spec fn after_key(self, key: KeyEvent) -> Self {
        let down = key.code == KeyCode::Down || key.code == KeyCode::Char('j');
        let up = key.code == KeyCode::Up || key.code == KeyCode::Char('k');
        if key.code == KeyCode::Esc {
            ProviderDetailView { show_raw_profile: false, show_raw_provider: false, ..self }
        } else if key.code == KeyCode::Char('y') && self.raw_profile_yaml is Some {
            ProviderDetailView {
                show_raw_profile: !self.show_raw_profile,
                show_raw_provider: false,
                raw_profile_scroll: 0,
                ..self
            }
        } else if key.code == KeyCode::Char('o') {
            ProviderDetailView {
                show_raw_provider: !self.show_raw_provider,
                show_raw_profile: false,
                raw_provider_scroll: 0,
                ..self
            }
        } else if down && self.show_raw_profile {
            ProviderDetailView {
                raw_profile_scroll: one_down(
                    self.raw_profile_scroll,
                    match self.raw_profile_yaml {
                        Some(yaml) => lines(yaml@).len(),
                        None => 0,
                    },
                ) as usize,
                ..self
            }
        } else if up && self.show_raw_profile {
            ProviderDetailView { raw_profile_scroll: one_less(self.raw_profile_scroll), ..self }
        } else if down && self.show_raw_provider {
            ProviderDetailView {
                raw_provider_scroll: one_down(
                    self.raw_provider_scroll,
                    lines(self.raw_provider_yaml@).len(),
                ) as usize,
                ..self
            }
        } else if up && self.show_raw_provider {
            ProviderDetailView { raw_provider_scroll: one_less(self.raw_provider_scroll), ..self }
        } else if down {
            ProviderDetailView {
                summary_scroll: (if self.summary_scroll < usize::MAX {
                    self.summary_scroll + 1
                } else {
                    usize::MAX as int
                }) as usize,
                ..self
            }
        } else if up {
            ProviderDetailView { summary_scroll: one_less(self.summary_scroll), ..self }
        } else {
            self
        }
    }

    /// Handles a key press, and says whether it closes the modal.
    pub fn handle_key(&mut self, key: KeyEvent) -> (close: bool)
        requires
            old(self).wf(),
        ensures
            final(self).wf(),
            close == old(self).closes(key),
            close ==> *final(self) == *old(self),
            !close ==> *final(self) == old(self).after_key(key),
    {
        match key.code {
            KeyCode::Enter => {
                return true;
            },
            KeyCode::Esc => {
                if !self.show_raw_profile && !self.show_raw_provider {
                    return true;
                }
                self.show_raw_profile = false;
                self.show_raw_provider = false;
            },
            KeyCode::Char('y') => if self.raw_profile_yaml.is_some() {
                self.show_raw_profile = !self.show_raw_profile;
                self.show_raw_provider = false;
                self.raw_profile_scroll = 0;
            },
            KeyCode::Char('o') => {
                self.show_raw_provider = !self.show_raw_provider;
                self.show_raw_profile = false;
                self.raw_provider_scroll = 0;
            },
            KeyCode::Char('j') | KeyCode::Down => {
                if self.show_raw_profile {
                    let n: usize = match &self.raw_profile_yaml {
                        Some(yaml) => count_lines(yaml.as_str()),
                        None => 0,
                    };
                    self.raw_profile_scroll = step_down(self.raw_profile_scroll, n);
                } else if self.show_raw_provider {
                    let n: usize = count_lines(self.raw_provider_yaml.as_str());
                    self.raw_provider_scroll = step_down(self.raw_provider_scroll, n);
                } else {
                    self.summary_scroll = self.summary_scroll.saturating_add(1);
                }
            },
            KeyCode::Char('k') | KeyCode::Up => {
                if self.show_raw_profile {
                    self.raw_profile_scroll = self.raw_profile_scroll.saturating_sub(1);
                } else if self.show_raw_provider {
                    self.raw_provider_scroll = self.raw_provider_scroll.saturating_sub(1);
                } else {
                    self.summary_scroll = self.summary_scroll.saturating_sub(1);
                }
            },
            _ => {},
        }
        false
    }
}

fn count_lines(s: &str) -> (n: usize)
    ensures
        n == lines(s@).len(),
{
    let parts = text::split_lines(s);
    assert(texts(parts@).len() == parts@.len());
    parts.len()
}

fn step_down(scroll: usize, n: usize) -> (next: usize)
    requires
        scroll < usize::MAX,
    ensures
        next == one_down(scroll, n as nat),
        next < usize::MAX,
{
    let last: usize = if n > 0 {
        n - 1
    } else {
        0
    };
    if scroll + 1 < last {
        scroll + 1
    } else {
        last
    }
}

/// Whether a provider has a credential under one of `names`.
pub open spec fn has_one(names: Seq<String>, credentials: Map<Seq<char>, String>) -> bool {
    exists|i: int| 0 <= i < names.len() && credentials.dom().contains((#[trigger] names[i])@)
}

proof fn lemma_first_present(names: Seq<Seq<char>>, credentials: Map<Seq<char>, String>)
    ensures
        first_present(names, credentials) is Some <==> exists|i: int|
            0 <= i < names.len() && credentials.dom().contains(#[trigger] names[i]),
        first_present(names, credentials) matches Some(name) ==> names.contains(name)
            && credentials.dom().contains(name),
    decreases names.len(),
{
    if names.len() > 0 && !credentials.dom().contains(names[0]) {
        let rest = names.drop_first();
        lemma_first_present(rest, credentials);
        if exists|i: int| 0 <= i < names.len() && credentials.dom().contains(#[trigger] names[i]) {
            let i = choose|i: int|
                0 <= i < names.len() && credentials.dom().contains(#[trigger] names[i]);
            assert(rest[i - 1] == names[i]);
        }
        if first_present(rest, credentials) is Some {
            let i = choose|i: int|
                0 <= i < rest.len() && credentials.dom().contains(#[trigger] rest[i]);
            assert(names[i + 1] == rest[i]);
            let name = first_present(rest, credentials)->0;
            let k = choose|k: int| 0 <= k < rest.len() && rest[k] == name;
            assert(names[k + 1] == name);
        }
    } else if names.len() > 0 {
        assert(names[0] == names[0]);
    }
}

proof fn lemma_presence(names: Seq<String>, credentials: Map<Seq<char>, String>)
    ensures
        first_present(texts(names), credentials) is Some <==> has_one(names, credentials),
{
    lemma_first_present(texts(names), credentials);
    if first_present(texts(names), credentials) is Some {
        let i = choose|i: int|
            0 <= i < texts(names).len() && credentials.dom().contains(#[trigger] texts(names)[i]);
        assert(credentials.dom().contains(names[i]@));
    }
    if has_one(names, credentials) {
        let i = choose|i: int|
            0 <= i < names.len() && credentials.dom().contains((#[trigger] names[i])@);
        assert(texts(names)[i] == names[i]@);
    }
}

/// The line of a credential that a profile asks for says whether it is required, by which
/// variables it is given, and whether the provider has it under one of them.
pub proof fn lemma_asked_credentials_are_said_present(provider: Provider, c: ProfileCredential)
    ensures
        ({
            let head = c.name@ + " ("@ + (if c.required {
                "required"@
            } else {
                "optional"@
            }) + ") env=["@ + (if c.env_vars@.len() == 0 {
                "<none>"@
            } else {
                joined(texts(c.env_vars@), ", "@)
            }) + "] "@;
            let line = asked_line(provider, c);
            &&& has_one(c.env_vars@, provider.credentials@) ==> (head + "present"@).is_prefix_of(
                line,
            )
            &&& !has_one(c.env_vars@, provider.credentials@) ==> line == head + "missing"@
        }),
{
    lemma_presence(c.env_vars@, provider.credentials@);
    reveal_strlit("");
    let line = asked_line(provider, c);
    let present = first_present(texts(c.env_vars@), provider.credentials@);
    let head = c.name@ + " ("@ + (if c.required {
        "required"@
    } else {
        "optional"@
    }) + ") env=["@ + (if c.env_vars@.len() == 0 {
        "<none>"@
    } else {
        joined(texts(c.env_vars@), ", "@)
    }) + "] "@;
    if present is Some {
        let shown = head + "present"@;
        assert(line =~= shown + expiry_text(provider.credential_expires_at_ms@, present));
        assert(line.take(shown.len() as int) =~= shown);
    } else {
        assert(""@ =~= Seq::<char>::empty());
        assert(line =~= head + "missing"@);
    }
}

/// A stored credential is shown by its name and its mask, and with when it runs out where that is
/// known.
pub proof fn lemma_stored_credentials_are_masked(provider: Provider, key: Seq<char>)
    ensures
        (key + ": "@ + masked(provider.credentials@[key]@)).is_prefix_of(
            stored_line(provider, key),
        ),
        provider.credential_expires_at_ms@.dom().contains(key)
            && provider.credential_expires_at_ms@[key] > 0 ==> stored_line(provider, key) == key
            + ": "@ + masked(provider.credentials@[key]@) + (" expires="@ + signed_decimal_of(
            provider.credential_expires_at_ms@[key] as int,
        )),
        !provider.credential_expires_at_ms@.dom().contains(key)
            || provider.credential_expires_at_ms@[key] <= 0 ==> stored_line(provider, key) == key
            + ": "@ + masked(provider.credentials@[key]@),
{
    reveal_strlit("");
    let head = key + ": "@ + masked(provider.credentials@[key]@);
    let line = stored_line(provider, key);
    assert(line.take(head.len() as int) =~= head);
    if !(provider.credential_expires_at_ms@.dom().contains(key)
        && provider.credential_expires_at_ms@[key] > 0) {
        assert(""@ =~= Seq::<char>::empty());
        assert(line =~= head);
    }
}

/// The number of programs is said first, then the first four of them, and how many more there are.
pub proof fn lemma_programs_are_listed(binaries: Seq<NetworkBinary>, i: int)
    ensures
        ({
            let lines = binary_lines(binaries);
            &&& binaries.len() == 0 ==> lines.len() == 0
            &&& 0 < binaries.len() <= 4 ==> lines.len() == 1 + binaries.len()
            &&& binaries.len() > 4 ==> lines.len() == 6 && lines[5] == "  ... "@ + decimal_of(
                (binaries.len() - 4) as nat,
            ) + " more"@
            &&& binaries.len() > 0 ==> lines[0] == "Binaries: "@ + decimal_of(binaries.len())
            &&& 0 <= i < binaries.len() && i < 4 ==> lines[i + 1] == "  "@ + binaries[i].path@
        }),
{
}

/// A provider is shown with the profile of the first entry that has its identifier.
pub proof fn lemma_profile_is_found_by_identifier(
    entries: Seq<ProviderListEntry>,
    id: Seq<char>,
    i: int,
)
    ensures
        0 <= i < entries.len() && entries[i].provider.id_text() == id && (forall|j: int|
            0 <= j < i ==> (#[trigger] entries[j]).provider.id_text() != id) ==> profile_for(
            entries,
            id,
        ) == entries[i].profile,
        (forall|j: int|
            0 <= j < entries.len() ==> (#[trigger] entries[j]).provider.id_text() != id)
            ==> profile_for(entries, id) is None,
    decreases entries.len(),
{
    if entries.len() > 0 {
        let rest = entries.drop_first();
        lemma_profile_is_found_by_identifier(rest, id, i - 1);
        if 0 < i < entries.len() && (forall|j: int|
            0 <= j < i ==> (#[trigger] entries[j]).provider.id_text() != id) {
            assert(entries[0].provider.id_text() != id);
            assert(rest[i - 1] == entries[i]);
            assert forall|j: int| 0 <= j < i - 1 implies (#[trigger] rest[j]).provider.id_text()
                != id by {
                assert(rest[j] == entries[j + 1]);
            }
        }
        if forall|j: int|
            0 <= j < entries.len() ==> (#[trigger] entries[j]).provider.id_text() != id {
            assert(entries[0].provider.id_text() != id);
            assert forall|j: int| 0 <= j < rest.len() implies (
            #[trigger] rest[j]).provider.id_text() != id by {
                assert(rest[j] == entries[j + 1]);
            }
        }
    }
}

/// The modal shows the provider under its own name, identifier and type, its credentials and its
/// configuration, and begins with the summary.
pub proof fn lemma_detail_shows_the_provider(
    provider: Provider,
    profile: Option<ProviderProfile>,
    profile_yaml: Option<String>,
    view: ProviderDetailView,
)
    requires
        shows_provider(provider, profile, profile_yaml, view),
    ensures
        provider.metadata matches Some(m) ==> view.name@ == m.name@ && view.provider_id@ == m.id@
            && view.resource_version == m.resource_version,
        view.provider_type@ == provider.provider_type@,
        view.raw_provider_yaml@ == redacted_yaml(provider),
        !view.show_raw_profile && !view.show_raw_provider && view.summary_scroll == 0,
        profile is None ==> view.raw_profile_yaml is None && view.profile_name is None
            && view.profile_category is None,
        profile matches Some(p) ==> view.raw_profile_yaml == profile_yaml && (
        view.profile_name matches Some(name) && name@ == if p.display_name@.len() == 0 {
            p.id@
        } else {
            p.display_name@
        }) && (view.profile_category matches Some(category) && category@ == p.category.name()),
        profile matches Some(p) ==> view.credential_lines@.len() == p.credentials@.len()
            && forall|i: int|
            0 <= i < p.credentials@.len() ==> (#[trigger] view.credential_lines@[i])@ == asked_line(
                provider,
                p.credentials@[i],
            ),
{
    if let Some(p) = profile {
        let shown = p.credentials@.map_values(|c: ProfileCredential| asked_line(provider, c));
        assert(texts(view.credential_lines@) == shown);
        assert(texts(view.credential_lines@).len() == view.credential_lines@.len());
        assert forall|i: int| 0 <= i < p.credentials@.len() implies (
        #[trigger] view.credential_lines@[i])@ == asked_line(provider, p.credentials@[i]) by {
            assert(texts(view.credential_lines@)[i] == shown[i]);
        }
    }
}

/// In the modal `y` turns to the profile as it is written, where there is one, `o` to the provider,
/// and each key back; they never show together. Enter closes the modal, and escape does so from
/// the summary.
pub proof fn lemma_detail_turns_by_its_keys(view: ProviderDetailView, key: KeyEvent)
    ensures
        ({
            let post = view.after_key(key);
            let summary = !view.show_raw_profile && !view.show_raw_provider;
            &&& view.closes(key) <==> key.code == KeyCode::Enter || (key.code == KeyCode::Esc
                && summary)
            &&& key.code == KeyCode::Esc ==> !post.show_raw_profile && !post.show_raw_provider
            &&& key.code == KeyCode::Char('y') && view.raw_profile_yaml is Some
                ==> post.show_raw_profile == !view.show_raw_profile && !post.show_raw_provider
                && post.raw_profile_scroll == 0
            &&& key.code == KeyCode::Char('o') ==> post.show_raw_provider
                == !view.show_raw_provider && !post.show_raw_profile && post.raw_provider_scroll
                == 0
            &&& key.code != KeyCode::Esc && key.code != KeyCode::Char('y') && key.code
                != KeyCode::Char('o') ==> post.show_raw_profile == view.show_raw_profile
                && post.show_raw_provider == view.show_raw_provider
            &&& summary && (key.code == KeyCode::Down || key.code == KeyCode::Char('j'))
                && view.summary_scroll < usize::MAX ==> post.summary_scroll == view.summary_scroll
                + 1
            &&& summary && (key.code == KeyCode::Up || key.code == KeyCode::Char('k'))
                && view.summary_scroll > 0 ==> post.summary_scroll == view.summary_scroll - 1
            &&& view.show_raw_profile && (key.code == KeyCode::Up || key.code
                == KeyCode::Char('k')) && view.raw_profile_scroll > 0 ==> post.raw_profile_scroll
                == view.raw_profile_scroll - 1
            &&& view.show_raw_provider && !view.show_raw_profile && (key.code == KeyCode::Up
                || key.code == KeyCode::Char('k')) && view.raw_provider_scroll > 0
                ==> post.raw_provider_scroll == view.raw_provider_scroll - 1
        }),
{
}

proof fn lemma_counts(s: Seq<ProfileCredential>, p: spec_fn(ProfileCredential) -> bool)
    ensures
        count_where(s, p) <= s.len(),
        (forall|i: int| 0 <= i < s.len() ==> p(#[trigger] s[i])) <==> count_where(s, p) == s.len(),
        (forall|i: int| 0 <= i < s.len() ==> !p(#[trigger] s[i])) <==> count_where(s, p) == 0,
    decreases s.len(),
{
    if s.len() > 0 {
        let before = s.drop_last();
        lemma_counts(before, p);
        assert(s[s.len() - 1] == s.last());
        assert forall|i: int| 0 <= i < before.len() implies before[i] == #[trigger] s[i] by {}
        if forall|i: int| 0 <= i < before.len() ==> p(#[trigger] before[i]) {
            assert forall|i: int| 0 <= i < s.len() && p(s.last()) implies p(#[trigger] s[i]) by {
                if i < before.len() {
                    assert(p(before[i]));
                }
            }
        }
        if forall|i: int| 0 <= i < before.len() ==> !p(#[trigger] before[i]) {
            assert forall|i: int| 0 <= i < s.len() && !p(s.last()) implies !p(#[trigger] s[i]) by {
                if i < before.len() {
                    assert(!p(before[i]));
                }
            }
        }
        if forall|i: int| 0 <= i < s.len() ==> p(#[trigger] s[i]) {
            assert forall|i: int| 0 <= i < before.len() implies p(#[trigger] before[i]) by {
                assert(p(s[i]));
            }
        }
        if forall|i: int| 0 <= i < s.len() ==> !p(#[trigger] s[i]) {
            assert forall|i: int| 0 <= i < before.len() implies !p(#[trigger] before[i]) by {
                assert(!p(s[i]));
            }
        }
    }
}

/// The list counts the required credentials that a provider has among those that its profile asks
/// for: where it has them all the two numbers are the same, and where it has none the first is
/// nothing.
pub proof fn lemma_list_counts_required_credentials(entry: ProviderListEntry, all: bool)
    requires
        entry.profile matches Some(p) && p.credentials@.len() > 0 && forall|i: int|
            0 <= i < p.credentials@.len() ==> (#[trigger] p.credentials@[i]).required && has_one(
                p.credentials@[i].env_vars@,
                entry.provider.credentials@,
            ) == all,
    ensures
        entry.profile matches Some(p) && entry.credential_text() == decimal_of(
            if all {
                p.credentials@.len()
            } else {
                0
            },
        ) + "/"@ + decimal_of(p.credentials@.len()) + " req, "@ + (decimal_of(
            entry.provider.credentials.keys().len(),
        ) + " key"@ + plural_text(entry.provider.credentials.keys().len())),
{
    let p = entry.profile->0;
    let has = |c: ProfileCredential| has_required(c, entry.provider.credentials@);
    let required = |c: ProfileCredential| c.required;
    lemma_counts(p.credentials@, has);
    lemma_counts(p.credentials@, required);
    assert forall|i: int| 0 <= i < p.credentials@.len() implies has(#[trigger] p.credentials@[i])
        == all by {
        lemma_presence(p.credentials@[i].env_vars@, entry.provider.credentials@);
    }
}

/// A profile is called by its display name, and by its identifier where it has none.
pub proof fn lemma_profiles_are_called_by_name(profile: ProviderProfile)
    ensures
        profile.display_name@.len() > 0 ==> profile.label() == profile.display_name@,
        profile.display_name@.len() == 0 ==> profile.label() == profile.id@,
{
}

/// The list says of a provider's policy how many endpoints and programs it has, in this order, and
/// whether it can be used for inference; without a profile it says that there is none.
pub proof fn lemma_policies_are_counted(entry: ProviderListEntry)
    ensures
        entry.profile is None ==> entry.policy_text() == "no profile"@,
        entry.profile matches Some(profile) ==> {
            let endpoints = decimal_of(profile.endpoints@.len()) + " endpoint"@;
            let programs = decimal_of(profile.binaries@.len()) + " bin"@;
            &&& profile.endpoints@.len() != 1 && profile.binaries@.len() != 1
                && !profile.inference_capable ==> entry.policy_text() == endpoints + "s"@ + ", "@
                + programs + "s"@ + ""@
            &&& profile.endpoints@.len() != 1 && profile.binaries@.len() != 1
                && profile.inference_capable ==> entry.policy_text() == endpoints + "s"@ + ", "@
                + programs + "s"@ + ", inference"@
            &&& profile.endpoints@.len() == 1 && profile.binaries@.len() == 1
                && !profile.inference_capable ==> entry.policy_text() == endpoints + ""@ + ", "@
                + programs + ""@ + ""@
        },
{
}

} // verus!
