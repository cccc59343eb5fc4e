//! Who a request is made for, and whether it may be made.

use vstd::prelude::*;
use crate::gateway::principal::{
    dev_user, unauthenticated_dev_user_principal, Identity, Principal, UserPrincipal,
};
use crate::gateway::routing::{GatewayListenerScope, MethodAccess};
use crate::gateway::status::{Code, Status};
use crate::text;

verus! {

/// A way to authenticate a request.
#[derive(Debug, Clone, Copy, PartialEq, Eq, Structural)]
pub enum AuthenticatorKind {
    /// Exchanges the token of a Kubernetes service account, on one path only.
    K8sServiceAccount,
    /// Recognizes the tokens that the gateway gives to sandboxes.
    SandboxJwt,
    /// Recognizes the tokens of users.
    Oidc,
}

/// Ways to authenticate a request; the first that recognizes it decides.
#[derive(Debug)]
pub struct AuthenticatorChain {
    pub authenticators: Vec<AuthenticatorKind>,
}

/// A kind of authenticator, where it is configured.
pub open spec fn kind_if(configured: bool, kind: AuthenticatorKind) -> Seq<AuthenticatorKind> {
    if configured {
        seq![kind]
    } else {
        Seq::empty()
    }
}

/// The order of the configured authenticators.
pub open spec fn chain_order(k8s: bool, sandbox_jwt: bool, oidc: bool) -> Seq<AuthenticatorKind> {
    kind_if(k8s, AuthenticatorKind::K8sServiceAccount) + kind_if(
        sandbox_jwt,
        AuthenticatorKind::SandboxJwt,
    ) + kind_if(oidc, AuthenticatorKind::Oidc)
}

/// The chain of the configured authenticators, or none where none is configured.
pub fn build_authenticator_chain(k8s: bool, sandbox_jwt: bool, oidc: bool) -> (chain: Option<
    AuthenticatorChain,
>)
    ensures
        chain is None <==> !k8s && !sandbox_jwt && !oidc,
        chain matches Some(c) ==> c.authenticators@ == chain_order(k8s, sandbox_jwt, oidc),
{
    let mut authenticators: Vec<AuthenticatorKind> = Vec::new();
    if k8s {
        authenticators.push(AuthenticatorKind::K8sServiceAccount);
    }
    if sandbox_jwt {
        authenticators.push(AuthenticatorKind::SandboxJwt);
    }
    if oidc {
        authenticators.push(AuthenticatorKind::Oidc);
    }
    assert(authenticators@ =~= chain_order(k8s, sandbox_jwt, oidc));
    if authenticators.len() == 0 {
        None
    } else {
        Some(AuthenticatorChain { authenticators })
    }
}

/// Which roles users need.
#[derive(Debug)]
pub struct AuthzPolicy {
    pub admin_role: String,
    pub user_role: String,
    pub scopes_enabled: bool,
}

/// What is configured for the tokens of users.
#[derive(Debug)]
pub struct OidcConfig {
    pub admin_role: String,
    pub user_role: String,
    pub scopes_claim: String,
}

impl AuthzPolicy {
    /// Whether this is the policy for the configured tokens.
    pub open spec fn is_for(self, oidc: OidcConfig) -> bool {
        &&& self.admin_role == oidc.admin_role
        &&& self.user_role == oidc.user_role
        &&& self.scopes_enabled == (oidc.scopes_claim@.len() > 0)
    }

    /// The policy for the configured tokens; scopes count where a claim for them is named.
    pub fn from_config(oidc: &OidcConfig) -> (policy: Self)
        ensures
            policy.is_for(*oidc),
    {
        AuthzPolicy {
            admin_role: oidc.admin_role.clone(),
            user_role: oidc.user_role.clone(),
            scopes_enabled: !oidc.scopes_claim.as_str().is_empty(),
        }
    }
}

/// Authenticates and authorizes the calls of an inner service.
pub struct AuthGrpcRouter<S> {
    pub inner: S,
    pub authenticator_chain: Option<AuthenticatorChain>,
    pub authz_policy: Option<AuthzPolicy>,
    /// The identity in the certificate of the connection's peer.
    pub peer_identity: Option<Identity>,
    pub mtls_auth_enabled: bool,
    pub allow_unauthenticated_users: bool,
    /// Whether sandboxes and users are kept to their own listeners.
    pub exclusive_sandbox_callback: bool,
}

/// What to do first with a call.
#[derive(Debug, Clone, Copy, PartialEq, Eq, Structural)]
pub enum AuthStep {
    /// Hand it on without authentication.
    Forward,
    /// Ask the authenticators.
    RunChain,
    /// Decide without authenticators.
    Decide,
}

/// Whether two identities are the same.
pub open spec fn same_identity(a: Identity, b: Identity) -> bool {
    &&& a.subject == b.subject
    &&& a.display_name == b.display_name
    &&& a.roles@ == b.roles@
    &&& a.scopes@ == b.scopes@
    &&& a.provider == b.provider
}

fn copy_identity(identity: &Identity) -> (copy: Identity)
    ensures
        same_identity(copy, *identity),
{
    let display_name = match &identity.display_name {
        Some(name) => Some(name.clone()),
        None => None,
    };
    Identity {
        subject: identity.subject.clone(),
        display_name,
        roles: text::copy_texts(&identity.roles),
        scopes: text::copy_texts(&identity.scopes),
        provider: identity.provider,
    }
}

/// Whether `principal` is the user with `identity`.
pub open spec fn is_user(principal: Principal, identity: Identity) -> bool {
    principal matches Principal::User(user) && same_identity(user.identity, identity)
}

/// Whether a result is an error with the given code and message.
pub open spec fn fails<T>(result: Result<T, Status>, code: Code, message: Seq<char>) -> bool {
    result matches Err(status) && status.is(code, message)
}

impl<S> AuthGrpcRouter<S> {
    /// The router that authenticates with a chain alone.
    pub fn new(
        inner: S,
        authenticator_chain: Option<AuthenticatorChain>,
        authz_policy: Option<AuthzPolicy>,
    ) -> (router: Self)
        ensures
            router == (AuthGrpcRouter {
                inner,
                authenticator_chain,
                authz_policy,
                peer_identity: None,
                mtls_auth_enabled: false,
                allow_unauthenticated_users: false,
                exclusive_sandbox_callback: false,
            }),
    {
        Self::with_peer_identity(
            inner,
            authenticator_chain,
            authz_policy,
            None,
            false,
            false,
            false,
        )
    }

    /// The router for a connection whose peer may have shown a certificate.
    pub fn with_peer_identity(
        inner: S,
        authenticator_chain: Option<AuthenticatorChain>,
        authz_policy: Option<AuthzPolicy>,
        peer_identity: Option<Identity>,
        mtls_auth_enabled: bool,
        allow_unauthenticated_users: bool,
        exclusive_sandbox_callback: bool,
    ) -> (router: Self)
        ensures
            router == (AuthGrpcRouter {
                inner,
                authenticator_chain,
                authz_policy,
                peer_identity,
                mtls_auth_enabled,
                allow_unauthenticated_users,
                exclusive_sandbox_callback,
            }),
    {
        AuthGrpcRouter {
            inner,
            authenticator_chain,
            authz_policy,
            peer_identity,
            mtls_auth_enabled,
            allow_unauthenticated_users,
            exclusive_sandbox_callback,
        }
    }

    /// What to do first with a call of a method: one that anyone may make is forwarded, and for any
    /// other the authenticators are asked where they are configured.
    pub open spec fn beginning(self, access: MethodAccess) -> AuthStep {
        if access.anyone {
            AuthStep::Forward
        } else if self.authenticator_chain is Some {
            AuthStep::RunChain
        } else {
            AuthStep::Decide
        }
    }

    /// What to do first with a call of a method.
    pub fn first_step(&self, access: MethodAccess) -> (step: AuthStep)
        ensures
            step == self.beginning(access),
    {
        if access.anyone {
            AuthStep::Forward
        } else if self.authenticator_chain.is_some() {
            AuthStep::RunChain
        } else {
            AuthStep::Decide
        }
    }

    /// Who a call is made for, where no authenticator recognized it.
    pub open spec fn without_credential(self, result: Result<Principal, Status>) -> bool {
        if self.mtls_auth_enabled && self.peer_identity is Some {
            result matches Ok(p) && is_user(p, self.peer_identity->Some_0)
        } else if self.allow_unauthenticated_users {
            result matches Ok(p) && dev_user(p)
        } else {
            fails(result, Code::Unauthenticated, "missing authorization header"@)
        }
    }

    /// Who a call is made for, where no authenticators are configured.
    pub open spec fn without_chain(self, result: Result<Principal, Status>) -> bool {
        if self.mtls_auth_enabled {
            match self.peer_identity {
                Some(identity) => result matches Ok(p) && is_user(p, identity),
                None => fails(result, Code::Unauthenticated, "missing client certificate"@),
            }
        } else {
            result matches Ok(p) && dev_user(p)
        }
    }

    /// Who a call is made for, given what the authenticators said where they are configured.
    pub open spec fn resolves(
        self,
        outcome: Option<Result<Option<Principal>, Status>>,
        result: Result<Principal, Status>,
    ) -> bool {
        match outcome {
            Some(Ok(Some(principal))) => result == Ok::<Principal, Status>(principal),
            Some(Ok(None)) => self.without_credential(result),
            Some(Err(status)) => result == Err::<Principal, Status>(status),
            None => self.without_chain(result),
        }
    }

    /// Decides who a call is made for; `outcome` is what the authenticators said, none where
    /// there are none.
    pub fn resolve_principal(&self, outcome: Option<Result<Option<Principal>, Status>>) -> (result:
        Result<Principal, Status>)
        ensures
            self.resolves(outcome, result),
    {
        match outcome {
            Some(Ok(Some(principal))) => Ok(principal),
            Some(Ok(None)) => {
                if self.mtls_auth_enabled {
                    if let Some(identity) = &self.peer_identity {
                        return Ok(
                            Principal::User(UserPrincipal { identity: copy_identity(identity) }),
                        );
                    }
                }
                if self.allow_unauthenticated_users {
                    Ok(unauthenticated_dev_user_principal())
                } else {
                    Err(Status::new(Code::Unauthenticated, "missing authorization header"))
                }
            },
            Some(Err(status)) => Err(status),
            None => {
                if self.mtls_auth_enabled {
                    match &self.peer_identity {
                        Some(identity) => Ok(
                            Principal::User(UserPrincipal { identity: copy_identity(identity) }),
                        ),
                        None => Err(
                            Status::new(Code::Unauthenticated, "missing client certificate"),
                        ),
                    }
                } else {
                    Ok(unauthenticated_dev_user_principal())
                }
            },
        }
    }

    /// Why a call may not come in on a listener, where sandboxes and users are kept to their
    /// own.
    pub open spec fn listener_refusal(
        self,
        scope: Option<GatewayListenerScope>,
        principal: Principal,
    ) -> Option<(Code, Seq<char>)> {
        if !self.exclusive_sandbox_callback {
            None
        } else {
            match scope {
                None => Some(
                    (
                        Code::PermissionDenied,
                        "exclusive sandbox callback request is missing listener scope"@,
                    ),
                ),
                Some(GatewayListenerScope::ComputeDriverCallback) => if principal is Sandbox {
                    None
                } else {
                    Some(
                        (
                            Code::PermissionDenied,
                            "compute-driver callback listeners require a sandbox principal"@,
                        ),
                    )
                },
                Some(GatewayListenerScope::Primary) => match principal {
                    Principal::User(_) => None,
                    Principal::Sandbox(_) => Some(
                        (
                            Code::PermissionDenied,
                            "sandbox principals must use a compute-driver callback listener"@,
                        ),
                    ),
                    Principal::Anonymous => Some(
                        (
                            Code::Unauthenticated,
                            "anonymous callers may not call authenticated methods"@,
                        ),
                    ),
                },
            }
        }
    }

    fn check_listener(&self, scope: Option<GatewayListenerScope>, principal: &Principal) -> (refusal:
        Option<Status>)
        ensures
            refusal is Some <==> self.listener_refusal(scope, *principal) is Some,
            refusal matches Some(status) ==> self.listener_refusal(scope, *principal) == Some(
                (status.code, status.message@),
            ),
    {
        if !self.exclusive_sandbox_callback {
            return None;
        }
        match scope {
            None => Some(
                Status::new(
                    Code::PermissionDenied,
                    "exclusive sandbox callback request is missing listener scope",
                ),
            ),
            Some(GatewayListenerScope::ComputeDriverCallback) => match principal {
                Principal::Sandbox(_) => None,
                _ => Some(
                    Status::new(
                        Code::PermissionDenied,
                        "compute-driver callback listeners require a sandbox principal",
                    ),
                ),
            },
            Some(GatewayListenerScope::Primary) => match principal {
                Principal::User(_) => None,
                Principal::Sandbox(_) => Some(
                    Status::new(
                        Code::PermissionDenied,
                        "sandbox principals must use a compute-driver callback listener",
                    ),
                ),
                Principal::Anonymous => Some(
                    Status::new(
                        Code::Unauthenticated,
                        "anonymous callers may not call authenticated methods",
                    ),
                ),
            },
        }
    }

    /// Why a method may not be called by `principal`; `policy_refusal` is what the policy for
    /// users objects, and counts where there is one.
    pub open spec fn method_refusal(
        self,
        access: MethodAccess,
        principal: Principal,
        policy_refusal: Option<Status>,
    ) -> Option<(Code, Seq<char>)> {
        match principal {
            Principal::User(_) => if !access.users {
                Some((Code::PermissionDenied, "this method requires a sandbox principal"@))
            } else if self.authz_policy is Some {
                match policy_refusal {
                    Some(status) => Some((status.code, status.message@)),
                    None => None,
                }
            } else {
                None
            },
            Principal::Sandbox(_) => if access.sandboxes {
                None
            } else {
                Some((Code::PermissionDenied, "sandbox principals may not call this method"@))
            },
            Principal::Anonymous => Some(
                (
                    Code::Unauthenticated,
                    "anonymous callers may not call authenticated methods"@,
                ),
            ),
        }
    }

    /// Why a call is refused: for its listener, or else for its method.
    pub open spec fn refusal(
        self,
        access: MethodAccess,
        scope: Option<GatewayListenerScope>,
        principal: Principal,
        policy_refusal: Option<Status>,
    ) -> Option<(Code, Seq<char>)> {
        match self.listener_refusal(scope, principal) {
            Some(refusal) => Some(refusal),
            None => self.method_refusal(access, principal, policy_refusal),
        }
    }

    /// Decides whether `principal` may make a call: none where it may, else the status with
    /// which it is refused.
    pub fn authorize(
        &self,
        access: MethodAccess,
        scope: Option<GatewayListenerScope>,
        principal: &Principal,
        policy_refusal: Option<Status>,
    ) -> (refusal: Option<Status>)
        ensures
            refusal is Some <==> self.refusal(access, scope, *principal, policy_refusal) is Some,
            refusal matches Some(status) ==> self.refusal(
                access,
                scope,
                *principal,
                policy_refusal,
            ) == Some((status.code, status.message@)),
    {
        if let Some(status) = self.check_listener(scope, principal) {
            return Some(status);
        }
        match principal {
            Principal::User(_) => {
                if !access.users {
                    Some(
                        Status::new(
                            Code::PermissionDenied,
                            "this method requires a sandbox principal",
                        ),
                    )
                } else if self.authz_policy.is_some() {
                    policy_refusal
                } else {
                    None
                }
            },
            Principal::Sandbox(_) => {
                if access.sandboxes {
                    None
                } else {
                    Some(
                        Status::new(
                            Code::PermissionDenied,
                            "sandbox principals may not call this method",
                        ),
                    )
                }
            },
            Principal::Anonymous => Some(
                Status::new(
                    Code::Unauthenticated,
                    "anonymous callers may not call authenticated methods",
                ),
            ),
        }
    }
}

/// The identity of a peer, where certificates are a way to authenticate.
pub open spec fn trusted_identity(
    mtls_auth_enabled: bool,
    peer_identity: Option<Identity>,
) -> Option<Identity> {
    if mtls_auth_enabled {
        peer_identity
    } else {
        None
    }
}

/// The identity of a peer counts only where certificates are a way to authenticate.
pub fn trusted_peer_identity(mtls_auth_enabled: bool, peer_identity: Option<Identity>) -> (identity:
    Option<Identity>)
    ensures
        identity == trusted_identity(mtls_auth_enabled, peer_identity),
{
    if mtls_auth_enabled {
        peer_identity
    } else {
        None
    }
}

/// Where sandboxes and users are kept to their own listeners, only sandboxes get in on a
/// callback listener and only users on the primary one.
pub proof fn lemma_listeners_are_exclusive<S>(
    router: AuthGrpcRouter<S>,
    access: MethodAccess,
    scope: Option<GatewayListenerScope>,
    principal: Principal,
    policy_refusal: Option<Status>,
)
    requires
        router.exclusive_sandbox_callback,
        router.refusal(access, scope, principal, policy_refusal) is None,
    ensures
        scope is Some,
        scope == Some(GatewayListenerScope::ComputeDriverCallback) ==> principal is Sandbox,
        scope == Some(GatewayListenerScope::Primary) ==> principal is User,
{
}

/// Whoever is let in may call the method: a user where it is for users and no policy objects, a
/// sandbox where it is for sandboxes, and nobody without a name.
pub proof fn lemma_admitted_may_call<S>(
    router: AuthGrpcRouter<S>,
    access: MethodAccess,
    scope: Option<GatewayListenerScope>,
    principal: Principal,
    policy_refusal: Option<Status>,
)
    requires
        router.refusal(access, scope, principal, policy_refusal) is None,
    ensures
        !(principal is Anonymous),
        principal is User ==> access.users && (router.authz_policy is Some ==> policy_refusal is None),
        principal is Sandbox ==> access.sandboxes,
{
}

/// An authenticator's refusal stands, whatever else is configured; and without a credential no
/// sandbox is ever assumed.
pub proof fn lemma_no_sandbox_without_credential<S>(
    router: AuthGrpcRouter<S>,
    outcome: Option<Result<Option<Principal>, Status>>,
    result: Result<Principal, Status>,
)
    requires
        router.resolves(outcome, result),
    ensures
        outcome matches Some(Err(status)) ==> result == Err::<Principal, Status>(status),
        result matches Ok(p) ==> (p is Sandbox ==> outcome == Some(
            Ok::<Option<Principal>, Status>(Some(p)),
        )),
{
}

/// Of the authenticators that are configured, that for service accounts of Kubernetes is asked
/// first, that for the tokens of sandboxes next, and that for users last; none is asked twice.
pub proof fn lemma_authenticators_have_an_order(k8s: bool, sandbox_jwt: bool, oidc: bool)
    ensures
        ({
            let order = chain_order(k8s, sandbox_jwt, oidc);
            let n = (if k8s {
                1int
            } else {
                0
            }) + (if sandbox_jwt {
                1int
            } else {
                0
            }) + (if oidc {
                1int
            } else {
                0
            });
            &&& order.len() == n
            &&& k8s ==> order[0] == AuthenticatorKind::K8sServiceAccount
            &&& oidc ==> order[n - 1] == AuthenticatorKind::Oidc
            &&& sandbox_jwt ==> order[if k8s {
                1int
            } else {
                0
            }] == AuthenticatorKind::SandboxJwt
        }),
{
}

/// A call is refused by the policy alone where nothing else stands in its way: what the policy
/// objects counts for users, where there is a policy, and for nobody else.
pub proof fn lemma_policy_counts_for_users<S>(
    router: AuthGrpcRouter<S>,
    access: MethodAccess,
    scope: Option<GatewayListenerScope>,
    principal: Principal,
    policy_refusal: Option<Status>,
)
    ensures
        router.refusal(access, scope, principal, None) is Some ==> router.refusal(
            access,
            scope,
            principal,
            policy_refusal,
        ) == router.refusal(access, scope, principal, None),
        router.refusal(access, scope, principal, None) is None && principal is User
            && router.authz_policy is Some ==> match policy_refusal {
            Some(status) => router.refusal(access, scope, principal, policy_refusal) == Some(
                (status.code, status.message@),
            ),
            None => router.refusal(access, scope, principal, policy_refusal) is None,
        },
        !(principal is User) || router.authz_policy is None ==> router.refusal(
            access,
            scope,
            principal,
            policy_refusal,
        ) == router.refusal(access, scope, principal, None),
        !router.exclusive_sandbox_callback && principal is User && access.users ==> router.refusal(
            access,
            scope,
            principal,
            None,
        ) is None,
        !router.exclusive_sandbox_callback && principal is Sandbox && access.sandboxes
            ==> router.refusal(access, scope, principal, None) is None,
{
}

/// A call is forwarded at once exactly where anyone may make it; for any other the authenticators
/// are asked exactly where they are configured, and it is decided without them where they are not.
pub proof fn lemma_calls_begin_with_their_access<S>(router: AuthGrpcRouter<S>, access: MethodAccess)
    ensures
        router.beginning(access) == AuthStep::Forward <==> access.anyone,
        router.beginning(access) == AuthStep::RunChain <==> !access.anyone
            && router.authenticator_chain is Some,
        router.beginning(access) == AuthStep::Decide <==> !access.anyone
            && router.authenticator_chain is None,
{
}

/// The identity of a peer is trusted, as it is, exactly where certificates are a way to
/// authenticate and the peer has one.
pub proof fn lemma_peers_are_trusted_by_certificate(
    mtls_auth_enabled: bool,
    peer_identity: Option<Identity>,
)
    ensures
        trusted_identity(mtls_auth_enabled, peer_identity) is Some <==> mtls_auth_enabled
            && peer_identity is Some,
        trusted_identity(mtls_auth_enabled, peer_identity) matches Some(identity) ==> peer_identity
            == Some(identity),
{
}

/// The roles of users and of administrators are those that are configured, each for its own sort
/// of method, and scopes count exactly where a claim for them is named.
pub proof fn lemma_policy_has_the_configured_roles(policy: AuthzPolicy, oidc: OidcConfig)
    requires
        policy.is_for(oidc),
    ensures
        policy.admin_role@ == oidc.admin_role@,
        policy.user_role@ == oidc.user_role@,
        policy.scopes_enabled <==> oidc.scopes_claim@.len() > 0,
{
}

} // verus!
