//! Network rules as the gateway proposes and stores them.

use vstd::prelude::*;
use crate::text_map::TextMap;

verus! {

/// How a query parameter is matched: against one of `any`, or against `glob`.
#[derive(Debug)]
pub struct L7QueryMatcher {
    pub glob: String,
    pub any: Vec<String>,
}

/// What an application-level rule lets through.
pub struct L7Allow {
    pub method: String,
    pub path: String,
    pub command: String,
    pub query: TextMap<L7QueryMatcher>,
    pub operation_type: String,
    pub operation_name: String,
    pub fields: Vec<String>,
}

/// What an application-level rule stops.
pub struct L7DenyRule {
    pub method: String,
    pub path: String,
    pub command: String,
    pub query: TextMap<L7QueryMatcher>,
    pub operation_type: String,
    pub operation_name: String,
    pub fields: Vec<String>,
}

/// An application-level rule.
pub struct L7Rule {
    pub allow: Option<L7Allow>,
}

/// An endpoint that a rule speaks of.
pub struct NetworkEndpoint {
    pub host: String,
    pub port: u32,
    pub protocol: String,
    pub tls: String,
    pub enforcement: String,
    pub access: String,
    pub path: String,
    pub rules: Vec<L7Rule>,
    pub deny_rules: Vec<L7DenyRule>,
    pub request_body_credential_rewrite: bool,
    pub websocket_credential_rewrite: bool,
}

/// A program that a rule speaks of.
#[derive(Debug)]
pub struct NetworkBinary {
    pub path: String,
}

/// A network rule.
pub struct NetworkPolicyRule {
    pub endpoints: Vec<NetworkEndpoint>,
    pub binaries: Vec<NetworkBinary>,
}

/// A proposed change of the policy.
pub struct PolicyChunk {
    pub id: String,
    /// "pending", "approved" or "rejected".
    pub status: String,
    pub rule_name: String,
    pub proposed_rule: Option<NetworkPolicyRule>,
    pub rationale: String,
    pub security_notes: String,
    /// The confidence in percent, as it is shown.
    pub confidence_label: String,
    pub binary: String,
    pub hit_count: i32,
    pub first_seen_ms: i64,
    pub last_seen_ms: i64,
    pub validation_result: String,
    pub application_error: String,
    pub rejection_reason: String,
}

} // verus!
