//! Proposed network rules in words.

use vstd::prelude::*;
use crate::text;
use crate::text::{
    add_text, all_together, decimal_of, digit, first_at, joined, lines, lowered, replaced, texts,
    together, trimmed,
};
use crate::text_map::TextMap;
use crate::tui::policy::{L7Allow, L7DenyRule, L7QueryMatcher, L7Rule, NetworkEndpoint, PolicyChunk};

verus! {

/// `value`, or `fallback` where it is empty.
pub open spec fn value_or(value: Seq<char>, fallback: Seq<char>) -> Seq<char> {
    if value.len() == 0 {
        fallback
    } else {
        value
    }
}

/// `value`, or `fallback` where it is empty.
pub fn non_empty_or<'a>(value: &'a str, fallback: &'a str) -> (s: &'a str)
    ensures
        s@ == value_or(value@, fallback@),
{
    if value.is_empty() {
        fallback
    } else {
        value
    }
}

/// How a query parameter is matched, in words.
pub open spec fn matcher_text(key: Seq<char>, matcher: L7QueryMatcher) -> Seq<char> {
    if matcher.any@.len() == 0 {
        key + "="@ + value_or(matcher.glob@, "*"@)
    } else {
        key + " in ["@ + joined(texts(matcher.any@), ","@) + "]"@
    }
}

/// The matchers of a query, in the order of their keys.
pub open spec fn matcher_texts(query: TextMap<L7QueryMatcher>) -> Seq<Seq<char>> {
    Seq::new(query.keys().len(), |i: int| matcher_text(query.keys()[i], query@[query.keys()[i]]))
}

/// What is asked of the query, where anything is.
pub open spec fn query_parts(query: TextMap<L7QueryMatcher>) -> Seq<Seq<char>> {
    if query.keys().len() == 0 {
        Seq::empty()
    } else {
        seq!["query "@ + joined(matcher_texts(query), ", "@)]
    }
}

fn format_matcher(key: &str, matcher: &L7QueryMatcher) -> (s: String)
    ensures
        s@ == matcher_text(key@, *matcher),
{
    if matcher.any.len() == 0 {
        all_together(key, "=", non_empty_or(matcher.glob.as_str(), "*"))
    } else {
        let mut s = all_together(key, " in [", text::join(&matcher.any, ",").as_str());
        s.append("]");
        s
    }
}

/// Adds what is asked of the query to `parts`, where anything is.
pub fn append_query_matchers(parts: &mut Vec<String>, query: &TextMap<L7QueryMatcher>)
    ensures
        texts(final(parts)@) == texts(old(parts)@) + query_parts(*query),
{
    let n: usize = query.len();
    if n == 0 {
        assert(texts(parts@) + query_parts(*query) =~= texts(parts@));
        return;
    }
    let mut formatted: Vec<String> = Vec::new();
    let mut i: usize = 0;
    assert(texts(formatted@) =~= matcher_texts(*query).take(0));
    while i < n
        invariant
            i <= n,
            n == query.keys().len(),
            texts(formatted@) == matcher_texts(*query).take(i as int),
        decreases n - i,
    {
        let s = format_matcher(query.key_at(i).as_str(), query.value_at(i));
        assert(matcher_texts(*query).take(i as int + 1) =~= matcher_texts(*query).take(
            i as int,
        ).push(s@));
        add_text(&mut formatted, s);
        i = i + 1;
    }
    assert(matcher_texts(*query).take(n as int) =~= matcher_texts(*query));
    let ghost before = texts(parts@);
    add_text(parts, together("query ", text::join(&formatted, ", ").as_str()));
    assert(texts(parts@) =~= before + query_parts(*query));
}

/// A part of a rule, where `shown` holds.
pub open spec fn part_if(shown: bool, part: Seq<char>) -> Seq<Seq<char>> {
    if shown {
        seq![part]
    } else {
        Seq::empty()
    }
}

fn add_if(list: &mut Vec<String>, shown: bool, part: String)
    ensures
        texts(final(list)@) == texts(old(list)@) + part_if(shown, part@),
{
    let ghost before = texts(list@);
    if shown {
        add_text(list, part);
        assert(texts(list@) =~= before + seq![part@]);
    } else {
        assert(before + Seq::<Seq<char>>::empty() =~= before);
    }
}

/// An application-level rule in words: what it says of the request, the command, the operation,
/// the fields and the query, or a star where it says nothing.
pub open spec fn rule_text(
    method: Seq<char>,
    path: Seq<char>,
    command: Seq<char>,
    operation_type: Seq<char>,
    operation_name: Seq<char>,
    fields: Seq<Seq<char>>,
    query: TextMap<L7QueryMatcher>,
) -> Seq<char> {
    let parts = part_if(
        method.len() > 0 || path.len() > 0,
        value_or(method, "*"@) + " "@ + value_or(path, "*"@),
    ) + part_if(command.len() > 0, "command "@ + command) + part_if(
        operation_type.len() > 0 || operation_name.len() > 0,
        "graphql "@ + value_or(operation_type, "*"@) + " "@ + value_or(operation_name, "*"@),
    ) + part_if(fields.len() > 0, "fields "@ + joined(fields, ","@)) + query_parts(query);
    if parts.len() == 0 {
        "*"@
    } else {
        joined(parts, "; "@)
    }
}

fn format_rule(
    method: &str,
    path: &str,
    command: &str,
    operation_type: &str,
    operation_name: &str,
    fields: &Vec<String>,
    query: &TextMap<L7QueryMatcher>,
) -> (s: String)
    ensures
        s@ == rule_text(
            method@,
            path@,
            command@,
            operation_type@,
            operation_name@,
            texts(fields@),
            *query,
        ),
{
    let mut parts: Vec<String> = Vec::new();
    assert(texts(parts@) =~= Seq::<Seq<char>>::empty());
    add_if(
        &mut parts,
        !method.is_empty() || !path.is_empty(),
        all_together(non_empty_or(method, "*"), " ", non_empty_or(path, "*")),
    );
    assert(texts(parts@) =~= part_if(
        method@.len() > 0 || path@.len() > 0,
        value_or(method@, "*"@) + " "@ + value_or(path@, "*"@),
    ));
    add_if(&mut parts, !command.is_empty(), together("command ", command));
    let mut graphql = all_together("graphql ", non_empty_or(operation_type, "*"), " ");
    graphql.append(non_empty_or(operation_name, "*"));
    add_if(&mut parts, !operation_type.is_empty() || !operation_name.is_empty(), graphql);
    add_if(
        &mut parts,
        fields.len() > 0,
        together("fields ", text::join(fields, ",").as_str()),
    );
    append_query_matchers(&mut parts, query);
    assert(parts@.len() == texts(parts@).len());
    if parts.len() == 0 {
        "*".to_string()
    } else {
        text::join(&parts, "; ")
    }
}

impl L7Allow {
    /// The rule in words.
    pub open spec fn words(self) -> Seq<char> {
        rule_text(
            self.method@,
            self.path@,
            self.command@,
            self.operation_type@,
            self.operation_name@,
            texts(self.fields@),
            self.query,
        )
    }
}

impl L7DenyRule {
    /// The rule in words.
    pub open spec fn words(self) -> Seq<char> {
        rule_text(
            self.method@,
            self.path@,
            self.command@,
            self.operation_type@,
            self.operation_name@,
            texts(self.fields@),
            self.query,
        )
    }
}

pub fn format_allow_rule(allow: &L7Allow) -> (s: String)
    ensures
        s@ == allow.words(),
{
    format_rule(
        allow.method.as_str(),
        allow.path.as_str(),
        allow.command.as_str(),
        allow.operation_type.as_str(),
        allow.operation_name.as_str(),
        &allow.fields,
        &allow.query,
    )
}

pub fn format_deny_rule(deny: &L7DenyRule) -> (s: String)
    ensures
        s@ == deny.words(),
{
    format_rule(
        deny.method.as_str(),
        deny.path.as_str(),
        deny.command.as_str(),
        deny.operation_type.as_str(),
        deny.operation_name.as_str(),
        &deny.fields,
        &deny.query,
    )
}

/// What the rules let through, each behind `label`.
pub open spec fn allow_texts(label: Seq<char>, rules: Seq<L7Rule>) -> Seq<Seq<char>>
    decreases rules.len(),
{
    if rules.len() == 0 {
        Seq::empty()
    } else {
        allow_texts(label, rules.drop_last()) + match rules.last().allow {
            Some(allow) => seq![label + allow.words()],
            None => Seq::empty(),
        }
    }
}

/// What the rules stop, each behind `label`.
pub open spec fn deny_texts(label: Seq<char>, rules: Seq<L7DenyRule>) -> Seq<Seq<char>> {
    rules.map_values(|rule: L7DenyRule| label + rule.words())
}

fn add_allow_rules(list: &mut Vec<String>, label: &str, rules: &Vec<L7Rule>)
    ensures
        texts(final(list)@) == texts(old(list)@) + allow_texts(label@, rules@),
{
    let ghost before = texts(list@);
    let n: usize = rules.len();
    let mut i: usize = 0;
    assert(rules@.take(0).len() == 0);
    assert(texts(list@) =~= before + allow_texts(label@, rules@.take(0)));
    while i < n
        invariant
            i <= n,
            n == rules@.len(),
            texts(list@) == before + allow_texts(label@, rules@.take(i as int)),
        decreases n - i,
    {
        assert(rules@.take(i as int + 1).drop_last() =~= rules@.take(i as int));
        let ghost done = allow_texts(label@, rules@.take(i as int));
        match &rules[i].allow {
            Some(allow) => {
                add_text(list, together(label, format_allow_rule(allow).as_str()));
                assert(texts(list@) =~= before + (done + seq![label@ + allow.words()]));
            },
            None => {
                assert(before + done =~= before + (done + Seq::<Seq<char>>::empty()));
            },
        }
        i = i + 1;
    }
    assert(rules@.take(n as int) =~= rules@);
}

fn add_deny_rules(list: &mut Vec<String>, label: &str, rules: &Vec<L7DenyRule>)
    ensures
        texts(final(list)@) == texts(old(list)@) + deny_texts(label@, rules@),
{
    let ghost before = texts(list@);
    let ghost all = deny_texts(label@, rules@);
    let n: usize = rules.len();
    let mut i: usize = 0;
    assert(texts(list@) =~= before + all.take(0));
    while i < n
        invariant
            i <= n,
            n == rules@.len(),
            all == deny_texts(label@, rules@),
            texts(list@) == before + all.take(i as int),
        decreases n - i,
    {
        let s = together(label, format_deny_rule(&rules[i]).as_str());
        assert(all[i as int] == s@);
        assert(before + all.take(i as int + 1) =~= (before + all.take(i as int)).push(s@));
        add_text(list, s);
        i = i + 1;
    }
    assert(all.take(n as int) =~= all);
}

impl NetworkEndpoint {
    /// The layer on which the endpoint is checked.
    pub open spec fn layer(self) -> Seq<char> {
        if lowered(self.protocol@) == lowered("rest"@) {
            "L7 rest"@
        } else if self.protocol@.len() == 0 {
            "L4"@
        } else {
            self.protocol@
        }
    }

    /// The host, with the port where there is one.
    pub open spec fn address(self) -> Seq<char> {
        if self.port > 0 {
            self.host@ + ":"@ + decimal_of(self.port as nat)
        } else {
            self.host@
        }
    }

    /// What is said of the endpoint in short.
    pub open spec fn tags(self) -> Seq<Seq<char>> {
        seq![self.layer()] + part_if(self.access@.len() > 0, "access="@ + self.access@)
            + allow_texts("allow "@, self.rules@) + deny_texts("deny "@, self.deny_rules@)
    }

    /// The endpoint on one line.
    pub open spec fn summary(self) -> Seq<char> {
        self.address() + " ["@ + joined(self.tags(), ", "@) + "]"@
    }

    /// What is said of the endpoint at length.
    pub open spec fn details(self) -> Seq<Seq<char>> {
        part_if(self.path@.len() > 0, "Path scope: "@ + self.path@) + part_if(
            self.tls@.len() > 0,
            "TLS: "@ + self.tls@,
        ) + part_if(self.enforcement@.len() > 0, "Enforcement: "@ + self.enforcement@) + part_if(
            self.request_body_credential_rewrite,
            "Request body credential rewrite"@,
        ) + part_if(self.websocket_credential_rewrite, "WebSocket credential rewrite"@)
            + allow_texts("Allow: "@, self.rules@) + deny_texts("Deny: "@, self.deny_rules@)
    }
}

pub fn endpoint_layer_label(endpoint: &NetworkEndpoint) -> (label: &str)
    ensures
        label@ == endpoint.layer(),
{
    if text::same_ignoring_case(endpoint.protocol.as_str(), "rest") {
        "L7 rest"
    } else if endpoint.protocol.as_str().is_empty() {
        "L4"
    } else {
        endpoint.protocol.as_str()
    }
}

pub fn format_endpoint_summary(endpoint: &NetworkEndpoint) -> (s: String)
    ensures
        s@ == endpoint.summary(),
{
    let mut s = endpoint.host.clone();
    if endpoint.port > 0 {
        s.append(":");
        s.append(text::decimal(endpoint.port as u64).as_str());
    }
    let mut tags: Vec<String> = Vec::new();
    add_text(&mut tags, endpoint_layer_label(endpoint).to_string());
    assert(texts(tags@) =~= seq![endpoint.layer()]);
    add_if(
        &mut tags,
        !endpoint.access.as_str().is_empty(),
        together("access=", endpoint.access.as_str()),
    );
    add_allow_rules(&mut tags, "allow ", &endpoint.rules);
    add_deny_rules(&mut tags, "deny ", &endpoint.deny_rules);
    s.append(" [");
    s.append(text::join(&tags, ", ").as_str());
    s.append("]");
    s
}

pub fn format_endpoint_details(endpoint: &NetworkEndpoint) -> (details: Vec<String>)
    ensures
        texts(details@) == endpoint.details(),
{
    let mut details: Vec<String> = Vec::new();
    assert(texts(details@) =~= Seq::<Seq<char>>::empty());
    add_if(
        &mut details,
        !endpoint.path.as_str().is_empty(),
        together("Path scope: ", endpoint.path.as_str()),
    );
    assert(texts(details@) =~= part_if(
        endpoint.path@.len() > 0,
        "Path scope: "@ + endpoint.path@,
    ));
    add_if(
        &mut details,
        !endpoint.tls.as_str().is_empty(),
        together("TLS: ", endpoint.tls.as_str()),
    );
    add_if(
        &mut details,
        !endpoint.enforcement.as_str().is_empty(),
        together("Enforcement: ", endpoint.enforcement.as_str()),
    );
    add_if(
        &mut details,
        endpoint.request_body_credential_rewrite,
        "Request body credential rewrite".to_string(),
    );
    add_if(
        &mut details,
        endpoint.websocket_credential_rewrite,
        "WebSocket credential rewrite".to_string(),
    );
    add_allow_rules(&mut details, "Allow: ", &endpoint.rules);
    add_deny_rules(&mut details, "Deny: ", &endpoint.deny_rules);
    details
}

/// Two digits of a number below a hundred.
pub open spec fn two_digits(n: int) -> Seq<char> {
    seq![digit((n / 10) as nat), digit((n % 10) as nat)]
}

/// The time of day at `epoch_ms` milliseconds after the epoch, or dashes where that is not
/// after the epoch.
pub open spec fn short_time(epoch_ms: int) -> Seq<char> {
    if epoch_ms <= 0 {
        "--:--:--"@
    } else {
        let second = (epoch_ms / 1000) % 86400;
        two_digits(second / 3600) + ":"@ + two_digits((second % 3600) / 60) + ":"@ + two_digits(
            second % 60,
        )
    }
}

fn show_two_digits(n: u64) -> (s: String)
    requires
        n < 100,
    ensures
        s@ == two_digits(n as int),
{
    let mut s = text::decimal(n / 10);
    s.append(text::decimal(n % 10).as_str());
    assert(s@ =~= two_digits(n as int));
    s
}

/// The time of day at `epoch_ms` milliseconds after the epoch.
pub fn format_short_time(epoch_ms: i64) -> (s: String)
    ensures
        s@ == short_time(epoch_ms as int),
{
    if epoch_ms <= 0 {
        return "--:--:--".to_string();
    }
    let second: u64 = (epoch_ms as u64 / 1000) % 86400;
    let mut s = show_two_digits(second / 3600);
    s.append(":");
    s.append(show_two_digits((second % 3600) / 60).as_str());
    s.append(":");
    s.append(show_two_digits(second % 60).as_str());
    s
}

impl PolicyChunk {
    /// The note, where the rule was rejected with one. An approved rule can still
    /// carry an outdated note, which is not shown.
    pub open spec fn guidance(self) -> Option<Seq<char>> {
        let reason = trimmed(self.rejection_reason@);
        if self.status@ == "rejected"@ && reason.len() > 0 {
            Some(reason)
        } else {
            None
        }
    }
}

/// The note for a rejected rule.
pub fn rejection_guidance(chunk: &PolicyChunk) -> (reason: Option<&str>)
    ensures
        reason is Some <==> chunk.guidance() is Some,
        reason matches Some(r) ==> chunk.guidance() == Some(r@),
{
    if !text::same(chunk.status.as_str(), "rejected") {
        return None;
    }
    let reason = text::trim(chunk.rejection_reason.as_str());
    if reason.is_empty() {
        None
    } else {
        Some(reason)
    }
}

/// How a rule came to its status, or what it waits for.
#[derive(Debug, Clone, Copy, PartialEq, Eq, Structural)]
pub enum ApprovalAnnotationKind {
    AutoApproved,
    RequiresReview,
    Reviewed,
}

/// What is said of a rule's review.
#[derive(Debug)]
pub struct ApprovalAnnotation {
    pub kind: ApprovalAnnotationKind,
    pub short_label: String,
    pub detail_label: String,
}

/// The category that a line of a validation result names, or the empty text.
pub open spec fn issue_label(line: Seq<char>) -> Seq<char> {
    let inner = trimmed(line);
    let at = first_at(inner, ':');
    if at < inner.len() {
        replaced(trimmed(inner.take(at)), '_', ' ')
    } else {
        Seq::empty()
    }
}

/// The categories that the lines name, each once, in order.
pub open spec fn issue_labels(rows: Seq<Seq<char>>) -> Seq<Seq<char>>
    decreases rows.len(),
{
    if rows.len() == 0 {
        Seq::empty()
    } else {
        let before = issue_labels(rows.drop_last());
        let label = issue_label(rows.last());
        if label.len() > 0 && !before.contains(label) {
            before.push(label)
        } else {
            before
        }
    }
}

/// What a validation result warns of: the categories named below its first line, or that line
/// where there are none.
pub open spec fn issue_summary(validation: Seq<char>) -> Seq<char> {
    let rows = lines(validation);
    let below = if rows.len() > 0 {
        rows.drop_first()
    } else {
        rows
    };
    let labels = issue_labels(below);
    if labels.len() > 0 {
        joined(labels, ", "@)
    } else if rows.len() > 0 {
        rows[0]
    } else {
        validation
    }
}

fn read_issue(line: &str) -> (label: String)
    ensures
        label@ == issue_label(line@),
{
    match text::split_once(text::trim(line), ':') {
        Some((category, _)) => text::replace_char(text::trim(category), '_', ' '),
        None => String::new(),
    }
}

pub fn validation_issue_summary(validation: &str) -> (s: String)
    ensures
        s@ == issue_summary(validation@),
{
    let rows = text::split_lines(validation);
    let ghost all = lines(validation@);
    let n: usize = rows.len();
    if n == 0 {
        assert(all =~= Seq::empty());
        return validation.to_string();
    }
    let ghost below = all.drop_first();
    let mut issues: Vec<String> = Vec::new();
    let mut i: usize = 1;
    assert(texts(issues@) =~= issue_labels(below.take(0)));
    while i < n
        invariant
            1 <= i <= n,
            n == rows@.len(),
            texts(rows@) == all,
            below == all.drop_first(),
            texts(issues@) == issue_labels(below.take(i - 1)),
        decreases n - i,
    {
        let label = read_issue(rows[i].as_str());
        proof {
            assert(below.take(i as int).drop_last() =~= below.take(i - 1));
            assert(below.take(i as int).last() == all[i as int]);
            assert(all[i as int] == rows@[i as int]@);
        }
        if !label.as_str().is_empty() && !text::is_one_of(&issues, label.as_str()) {
            add_text(&mut issues, label);
        }
        i = i + 1;
    }
    assert(below.take(n - 1) =~= below);
    assert(issues@.len() == texts(issues@).len());
    if issues.len() == 0 {
        assert(all[0] == rows@[0]@);
        rows[0].clone()
    } else {
        text::join(&issues, ", ")
    }
}


impl PolicyChunk {
    /// What is said of the rule's review: its kind, a short and a long text.
    pub open spec fn review(self) -> Option<(ApprovalAnnotationKind, Seq<char>, Seq<char>)> {
        let error = trimmed(self.application_error@);
        let validation = trimmed(self.validation_result@);
        let approved = self.status@ == "approved"@;
        if error.len() > 0 {
            Some(
                (
                    ApprovalAnnotationKind::RequiresReview,
                    "application blocked"@,
                    "candidate cannot be applied: "@ + error,
                ),
            )
        } else if validation.len() == 0 {
            None
        } else if validation == "prover: no new findings"@ {
            if approved {
                Some(
                    (
                        ApprovalAnnotationKind::AutoApproved,
                        "auto-approved"@,
                        "proposal was auto-approved; no additional risk detected"@,
                    ),
                )
            } else {
                Some(
                    (
                        ApprovalAnnotationKind::RequiresReview,
                        "review required"@,
                        "rule requires review; no additional risk detected"@,
                    ),
                )
            }
        } else if approved {
            Some(
                (
                    ApprovalAnnotationKind::Reviewed,
                    "reviewed"@,
                    "rule was approved after review; possible issues: "@ + issue_summary(
                        validation,
                    ),
                ),
            )
        } else {
            Some(
                (
                    ApprovalAnnotationKind::RequiresReview,
                    "review required"@,
                    "rule was not auto-approved and requires review; possible issues: "@
                        + issue_summary(validation),
                ),
            )
        }
    }
}

/// What is said of a rule's review.
pub fn approval_annotation(chunk: &PolicyChunk) -> (annotation: Option<ApprovalAnnotation>)
    ensures
        annotation is Some <==> chunk.review() is Some,
        annotation matches Some(a) ==> chunk.review() == Some(
            (a.kind, a.short_label@, a.detail_label@),
        ),
{
    let error = text::trim(chunk.application_error.as_str());
    if !error.is_empty() {
        return Some(
            ApprovalAnnotation {
                kind: ApprovalAnnotationKind::RequiresReview,
                short_label: "application blocked".to_string(),
                detail_label: together("candidate cannot be applied: ", error),
            },
        );
    }
    let validation = text::trim(chunk.validation_result.as_str());
    if validation.is_empty() {
        return None;
    }
    let approved = text::same(chunk.status.as_str(), "approved");
    if text::same(validation, "prover: no new findings") {
        if approved {
            return Some(
                ApprovalAnnotation {
                    kind: ApprovalAnnotationKind::AutoApproved,
                    short_label: "auto-approved".to_string(),
                    detail_label:
                        "proposal was auto-approved; no additional risk detected".to_string(),
                },
            );
        }
        return Some(
            ApprovalAnnotation {
                kind: ApprovalAnnotationKind::RequiresReview,
                short_label: "review required".to_string(),
                detail_label: "rule requires review; no additional risk detected".to_string(),
            },
        );
    }
    let issues = validation_issue_summary(validation);
    if approved {
        return Some(
            ApprovalAnnotation {
                kind: ApprovalAnnotationKind::Reviewed,
                short_label: "reviewed".to_string(),
                detail_label: together(
                    "rule was approved after review; possible issues: ",
                    issues.as_str(),
                ),
            },
        );
    }
    Some(
        ApprovalAnnotation {
            kind: ApprovalAnnotationKind::RequiresReview,
            short_label: "review required".to_string(),
            detail_label: together(
                "rule was not auto-approved and requires review; possible issues: ",
                issues.as_str(),
            ),
        },
    )
}

/// Guidance is shown for rejected rules only, however outdated the stored note of another is.
pub proof fn lemma_guidance_only_for_rejected(chunk: PolicyChunk)
    ensures
        chunk.guidance() is Some ==> chunk.status@ == "rejected"@,
        chunk.guidance() matches Some(reason) ==> reason.len() > 0,
{
}

/// A rule is called auto-approved only where it is approved and the prover found nothing.
pub proof fn lemma_auto_approved_needs_a_clean_proof(chunk: PolicyChunk)
    ensures
        chunk.review() matches Some(r) && r.0 == ApprovalAnnotationKind::AutoApproved ==> {
            &&& chunk.status@ == "approved"@
            &&& trimmed(chunk.validation_result@) == "prover: no new findings"@
            &&& trimmed(chunk.application_error@).len() == 0
        },
{
}

/// An endpoint says in short on which layer it is checked, what access it gives, and then what its
/// rules let through and what they stop: each rule of the second kind behind `deny`, in order and
/// at the end.
pub proof fn lemma_endpoints_say_what_they_stop(endpoint: NetworkEndpoint, i: int)
    requires
        0 <= i < endpoint.deny_rules@.len(),
    ensures
        ({
            let tags = endpoint.tags();
            let details = endpoint.details();
            let n = endpoint.deny_rules@.len();
            &&& tags[0] == endpoint.layer()
            &&& tags.len() > n && tags[tags.len() - n + i] == "deny "@
                + endpoint.deny_rules@[i].words()
            &&& details.len() >= n && details[details.len() - n + i] == "Deny: "@
                + endpoint.deny_rules@[i].words()
            &&& endpoint.access@.len() > 0 ==> tags[1] == "access="@ + endpoint.access@
        }),
{
}

proof fn lemma_allow_texts(label: Seq<char>, rules: Seq<L7Rule>)
    requires
        forall|i: int| 0 <= i < rules.len() ==> (#[trigger] rules[i]).allow is Some,
    ensures
        allow_texts(label, rules).len() == rules.len(),
        forall|i: int|
            0 <= i < rules.len() ==> #[trigger] allow_texts(label, rules)[i] == label
                + rules[i].allow->0.words(),
    decreases rules.len(),
{
    if rules.len() > 0 {
        let before = rules.drop_last();
        assert forall|i: int| 0 <= i < before.len() implies (#[trigger] before[i]).allow is Some by {
            assert(rules[i].allow is Some);
        }
        lemma_allow_texts(label, before);
        assert(rules[rules.len() - 1].allow is Some);
        assert forall|i: int| 0 <= i < rules.len() implies #[trigger] allow_texts(label, rules)[i]
            == label + rules[i].allow->0.words() by {
            if i < before.len() {
                assert(allow_texts(label, rules)[i] == allow_texts(label, before)[i]);
                assert(before[i] == rules[i]);
            }
        }
    }
}

/// Each rule that lets something through is said behind `allow`, in order, before those that stop
/// something.
pub proof fn lemma_endpoints_say_what_they_let_through(endpoint: NetworkEndpoint, i: int)
    requires
        0 <= i < endpoint.rules@.len(),
        forall|j: int|
            0 <= j < endpoint.rules@.len() ==> (#[trigger] endpoint.rules@[j]).allow is Some,
    ensures
        ({
            let tags = endpoint.tags();
            let details = endpoint.details();
            let n = endpoint.deny_rules@.len() + endpoint.rules@.len();
            &&& tags.len() > n && tags[tags.len() - n + i] == "allow "@
                + endpoint.rules@[i].allow->0.words()
            &&& details.len() >= n && details[details.len() - n + i] == "Allow: "@
                + endpoint.rules@[i].allow->0.words()
        }),
{
    lemma_allow_texts("allow "@, endpoint.rules@);
    lemma_allow_texts("Allow: "@, endpoint.rules@);
    lemma_in_the_middle(
        seq![endpoint.layer()] + part_if(endpoint.access@.len() > 0, "access="@ + endpoint.access@),
        allow_texts("allow "@, endpoint.rules@),
        deny_texts("deny "@, endpoint.deny_rules@),
        i,
    );
    let scope = part_if(endpoint.path@.len() > 0, "Path scope: "@ + endpoint.path@) + part_if(
        endpoint.tls@.len() > 0,
        "TLS: "@ + endpoint.tls@,
    ) + part_if(endpoint.enforcement@.len() > 0, "Enforcement: "@ + endpoint.enforcement@)
        + part_if(endpoint.request_body_credential_rewrite, "Request body credential rewrite"@)
        + part_if(endpoint.websocket_credential_rewrite, "WebSocket credential rewrite"@);
    lemma_in_the_middle(
        scope,
        allow_texts("Allow: "@, endpoint.rules@),
        deny_texts("Deny: "@, endpoint.deny_rules@),
        i,
    );
}

proof fn lemma_in_the_middle(a: Seq<Seq<char>>, b: Seq<Seq<char>>, c: Seq<Seq<char>>, i: int)
    requires
        0 <= i < b.len(),
    ensures
        (a + b + c).len() == a.len() + b.len() + c.len(),
        (a + b + c)[(a + b + c).len() - (c.len() + b.len()) + i] == b[i],
{
}

/// An endpoint is named by its host and, where it has one, its port, and checked on the layer of
/// its protocol: none is the fourth, and `rest` the seventh.
pub proof fn lemma_endpoints_are_named(endpoint: NetworkEndpoint)
    ensures
        endpoint.port > 0 ==> endpoint.address() == endpoint.host@ + ":"@ + decimal_of(
            endpoint.port as nat,
        ),
        endpoint.port == 0 ==> endpoint.address() == endpoint.host@,
        endpoint.protocol@.len() == 0 ==> endpoint.layer() == "L4"@,
        endpoint.protocol@.len() > 0 && lowered(endpoint.protocol@) != lowered("rest"@)
            ==> endpoint.layer() == endpoint.protocol@,
        lowered(endpoint.protocol@) == lowered("rest"@) ==> endpoint.layer() == "L7 rest"@,
        (endpoint.address() + " ["@).is_prefix_of(endpoint.summary()),
{
    reveal_strlit("rest");
    if endpoint.protocol@.len() == 0 {
        assert(lowered(endpoint.protocol@).len() == 0);
        assert(lowered("rest"@).len() == 4);
    }
    let head = endpoint.address() + " ["@;
    assert(endpoint.summary().take(head.len() as int) =~= head);
}

/// A rule on requests alone is said by the method and the path, a star standing for the one that
/// is not set; a rule that says nothing is a star.
pub proof fn lemma_rules_in_words(
    method: Seq<char>,
    path: Seq<char>,
    command: Seq<char>,
    operation_type: Seq<char>,
    operation_name: Seq<char>,
    fields: Seq<Seq<char>>,
    query: TextMap<L7QueryMatcher>,
)
    requires
        query.keys().len() == 0,
    ensures
        ({
            let words = rule_text(
                method,
                path,
                command,
                operation_type,
                operation_name,
                fields,
                query,
            );
            let request = method.len() > 0 || path.len() > 0;
            let graphql = operation_type.len() > 0 || operation_name.len() > 0;
            let said = value_or(method, "*"@) + " "@ + value_or(path, "*"@);
            &&& request && command.len() == 0 && !graphql && fields.len() == 0 ==> words == said
            &&& !request && command.len() > 0 && !graphql && fields.len() == 0 ==> words
                == "command "@ + command
            &&& !request && command.len() == 0 && graphql && fields.len() == 0 ==> words
                == "graphql "@ + value_or(operation_type, "*"@) + " "@ + value_or(
                operation_name,
                "*"@,
            )
            &&& !request && command.len() == 0 && !graphql && fields.len() > 0 ==> words
                == "fields "@ + joined(fields, ","@)
            &&& !request && command.len() == 0 && !graphql && fields.len() == 0 ==> words == "*"@
            &&& request && command.len() > 0 && !graphql && fields.len() == 0 ==> words == said
                + "; "@ + ("command "@ + command)
        }),
        value_or(method, "*"@) == if method.len() == 0 {
            "*"@
        } else {
            method
        },
{
    reveal_with_fuel(joined, 3);
    let request = method.len() > 0 || path.len() > 0;
    let said = value_or(method, "*"@) + " "@ + value_or(path, "*"@);
    if request && command.len() > 0 && operation_type.len() == 0 && operation_name.len() == 0
        && fields.len() == 0 {
        let parts = part_if(true, said) + part_if(true, "command "@ + command) + part_if(
            false,
            "graphql "@ + value_or(operation_type, "*"@) + " "@ + value_or(operation_name, "*"@),
        ) + part_if(false, "fields "@ + joined(fields, ","@)) + query_parts(query);
        assert(parts =~= seq![said, "command "@ + command]);
        assert(parts.drop_last() =~= seq![said]);
    }
}

/// The time of day is said in hours, minutes and seconds that add up to it.
pub proof fn lemma_times_of_day(epoch_ms: int)
    ensures
        epoch_ms <= 0 ==> short_time(epoch_ms) == "--:--:--"@,
        epoch_ms > 0 ==> {
            let shown = short_time(epoch_ms);
            let hours = 10 * (shown[0] as u32 - 0x30) + (shown[1] as u32 - 0x30);
            let minutes = 10 * (shown[3] as u32 - 0x30) + (shown[4] as u32 - 0x30);
            let seconds = 10 * (shown[6] as u32 - 0x30) + (shown[7] as u32 - 0x30);
            &&& shown.len() == 8
            &&& shown[2] == ':' && shown[5] == ':'
            &&& 0 <= hours < 24 && 0 <= minutes < 60 && 0 <= seconds < 60
            &&& hours * 3600 + minutes * 60 + seconds == (epoch_ms / 1000) % 86400
        },
{
    reveal_strlit(":");
    if epoch_ms > 0 {
        let second = (epoch_ms / 1000) % 86400;
        assert(0 <= second < 86400);
        let h = second / 3600;
        let m = (second % 3600) / 60;
        let s = second % 60;
        assert(0 <= h < 24 && 0 <= m < 60 && 0 <= s < 60);
        assert(h * 3600 + m * 60 + s == second);
        let shown = short_time(epoch_ms);
        assert(shown[0] == digit((h / 10) as nat) && shown[1] == digit((h % 10) as nat));
        assert(shown[3] == digit((m / 10) as nat) && shown[4] == digit((m % 10) as nat));
        assert(shown[6] == digit((s / 10) as nat) && shown[7] == digit((s % 10) as nat));
    }
}

/// What is said of a rule's review follows from its status and what was found: a rule that cannot
/// be applied waits, whatever else is known; one of which nothing was found waits until it is
/// approved; and so does one with findings, which are named.
pub proof fn lemma_reviews_follow_the_findings(chunk: PolicyChunk)
    ensures
        ({
            let error = trimmed(chunk.application_error@);
            let found = trimmed(chunk.validation_result@);
            let clean = found == "prover: no new findings"@;
            let approved = chunk.status@ == "approved"@;
            &&& error.len() == 0 && found.len() == 0 <==> chunk.review() is None
            &&& error.len() > 0 ==> (chunk.review() matches Some(r) && r.0
                == ApprovalAnnotationKind::RequiresReview && r.1 == "application blocked"@ && r.2
                == "candidate cannot be applied: "@ + error)
            &&& error.len() == 0 && found.len() > 0 ==> (chunk.review() matches Some(r) && {
                &&& r.0 == ApprovalAnnotationKind::AutoApproved <==> clean && approved
                &&& r.0 == ApprovalAnnotationKind::Reviewed <==> !clean && approved
                &&& r.0 == ApprovalAnnotationKind::RequiresReview <==> !approved
                &&& r.1 == "auto-approved"@ || !(clean && approved)
                &&& r.1 == "reviewed"@ || !(!clean && approved)
                &&& r.1 == "review required"@ || approved
            })
        }),
        chunk.guidance() is Some <==> chunk.status@ == "rejected"@ && trimmed(
            chunk.rejection_reason@,
        ).len() > 0,
        chunk.guidance() matches Some(reason) ==> reason == trimmed(chunk.rejection_reason@),
{
    reveal_strlit("prover: no new findings");
}

/// The categories that a validation names are listed once each, and they are those of its lines.
pub proof fn lemma_categories_are_named_once(rows: Seq<Seq<char>>, label: Seq<char>)
    ensures
        issue_labels(rows).contains(label) <==> label.len() > 0 && exists|i: int|
            0 <= i < rows.len() && issue_label(#[trigger] rows[i]) == label,
        issue_labels(rows).no_duplicates(),
    decreases rows.len(),
{
    if rows.len() > 0 {
        let before = issue_labels(rows.drop_last());
        let last = issue_label(rows.last());
        lemma_categories_are_named_once(rows.drop_last(), label);
        lemma_categories_are_named_once(rows.drop_last(), last);
        assert forall|i: int| 0 <= i < rows.len() - 1 implies rows.drop_last()[i]
            == #[trigger] rows[i] by {}
        assert(rows[rows.len() - 1] == rows.last());
        if last.len() > 0 && !before.contains(last) {
            let after = before.push(last);
            assert(after[before.len() as int] == last);
            assert forall|k: int| 0 <= k < before.len() implies after[k] == #[trigger] before[k] by {}
            assert(after.contains(label) <==> before.contains(label) || label == last) by {
                if before.contains(label) {
                    let k = choose|k: int| 0 <= k < before.len() && before[k] == label;
                    assert(after[k] == label);
                }
                if after.contains(label) {
                    let k = choose|k: int| 0 <= k < after.len() && after[k] == label;
                    if k < before.len() {
                        assert(before[k] == label);
                    }
                }
            }
        }
        if exists|i: int| 0 <= i < rows.len() && issue_label(#[trigger] rows[i]) == label {
            let i = choose|i: int| 0 <= i < rows.len() && issue_label(#[trigger] rows[i]) == label;
            if i < rows.len() - 1 {
                assert(issue_label(rows.drop_last()[i]) == label);
            }
        }
        if exists|i: int|
            0 <= i < rows.drop_last().len() && issue_label(#[trigger] rows.drop_last()[i]) == label {
            let i = choose|i: int|
                0 <= i < rows.drop_last().len() && issue_label(#[trigger] rows.drop_last()[i])
                    == label;
            assert(issue_label(rows[i]) == label);
        }
    }
}

/// A line names a category where it has a colon: what stands before the first, without the white
/// space around it and with spaces for low lines.
pub proof fn lemma_categories_stand_before_a_colon(line: Seq<char>)
    ensures
        !trimmed(line).contains(':') ==> issue_label(line).len() == 0,
        forall|i: int|
            0 <= i < issue_label(line).len() ==> #[trigger] issue_label(line)[i] != '_',
{
    if !trimmed(line).contains(':') {
        let inner = trimmed(line);
        let at = first_at(inner, ':');
        text::lemma_first_at_is(inner, ':');
    }
}

} // verus!
