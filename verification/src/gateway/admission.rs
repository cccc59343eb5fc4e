//! The course of a call through authentication and authorization.

use vstd::prelude::*;
use http::{HeaderMap, HeaderValue};
use crate::gateway::auth::{AuthGrpcRouter, AuthStep};
use crate::gateway::headers::{header_values, strip_auth_source, unmarked};
use crate::gateway::principal::{Identity, IdentityProvider, Principal};
use crate::gateway::routing::{GatewayListenerScope, MethodAccess};
use crate::gateway::status::{Code, Status};
use crate::text::texts;

verus! {

/// How far a call has come.
#[derive(Debug)]
pub enum AuthState {
    /// The call came in.
    Arrived,
    /// The authenticators look at it, with these header fields.
    Authenticating(HeaderMap<HeaderValue>),
    /// The policy for users looks at the call of this one.
    Checking(Principal, HeaderMap<HeaderValue>),
    /// It is decided.
    Ended,
}

/// What happened to a call.
#[derive(Debug)]
pub enum AuthEvent {
    /// It came in with these header fields.
    Request(HeaderMap<HeaderValue>),
    /// What the authenticators said of it.
    Authenticated(Result<Option<Principal>, Status>),
    /// What the policy for users objects, where it does.
    Checked(Option<Status>),
}

/// What to do next with a call.
#[derive(Debug)]
pub enum AuthAction {
    /// Ask the authenticators.
    Authenticate,
    /// Ask the policy for users.
    CheckPolicy,
    /// Hand the call to the inner service, for this caller, or for nobody where anyone may call,
    /// with these header fields.
    Forward(Option<Principal>, HeaderMap<HeaderValue>),
    /// Answer with this status.
    Refuse(Status),
    /// Nothing: the event does not belong to the state.
    Nothing,
}

/// Whether a call is refused with a code and a message.
pub open spec fn refused(
    next: AuthState,
    action: AuthAction,
    code: Code,
    message: Seq<char>,
) -> bool {
    next is Ended && (action matches AuthAction::Refuse(status) && status.is(code, message))
}

impl<S> AuthGrpcRouter<S> {
    /// Whether the call of `principal` waits for the policy for users.
    pub open spec fn waits_for_policy(self, principal: Principal) -> bool {
        principal is User && self.authz_policy is Some
    }

    /// What follows once it is known who a call is made for, or that nobody is.
    pub open spec fn admits(
        self,
        access: MethodAccess,
        scope: Option<GatewayListenerScope>,
        caller: Result<Principal, Status>,
        headers: HeaderMap<HeaderValue>,
        next: AuthState,
        action: AuthAction,
    ) -> bool {
        match caller {
            Err(status) => refused(next, action, status.code, status.message@),
            Ok(principal) => match self.refusal(access, scope, principal, None) {
                Some((code, message)) => refused(next, action, code, message),
                None => if self.waits_for_policy(principal) {
                    next == AuthState::Checking(principal, headers) && action is CheckPolicy
                } else {
                    next is Ended && action == AuthAction::Forward(Some(principal), headers)
                },
            },
        }
    }

    /// What follows once a call came in, its header fields without the mark.
    pub open spec fn enters(
        self,
        access: MethodAccess,
        scope: Option<GatewayListenerScope>,
        headers: HeaderMap<HeaderValue>,
        next: AuthState,
        action: AuthAction,
    ) -> bool {
        if access.anyone {
            next is Ended && action == AuthAction::Forward(None, headers)
        } else if self.authenticator_chain is Some {
            next == AuthState::Authenticating(headers) && action is Authenticate
        } else {
            exists|caller: Result<Principal, Status>|
                self.resolves(None, caller) && #[trigger] self.admits(
                    access,
                    scope,
                    caller,
                    headers,
                    next,
                    action,
                )
        }
    }

    /// What follows an event in a state.
    pub open spec fn follows(
        self,
        access: MethodAccess,
        scope: Option<GatewayListenerScope>,
        state: AuthState,
        event: AuthEvent,
        next: AuthState,
        action: AuthAction,
    ) -> bool {
        match (state, event) {
            (AuthState::Arrived, AuthEvent::Request(headers)) => exists|
                kept: HeaderMap<HeaderValue>,
            |
                unmarked(headers, kept) && #[trigger] self.enters(
                    access,
                    scope,
                    kept,
                    next,
                    action,
                ),
            (AuthState::Authenticating(headers), AuthEvent::Authenticated(outcome)) => exists|
                caller: Result<Principal, Status>,
            |
                self.resolves(Some(outcome), caller) && #[trigger] self.admits(
                    access,
                    scope,
                    caller,
                    headers,
                    next,
                    action,
                ),
            (AuthState::Checking(principal, headers), AuthEvent::Checked(objection)) => {
                &&& next is Ended
                &&& action == match objection {
                    Some(status) => AuthAction::Refuse(status),
                    None => AuthAction::Forward(Some(principal), headers),
                }
            },
            _ => next == state && action is Nothing,
        }
    }

    fn let_in(
        &self,
        access: MethodAccess,
        scope: Option<GatewayListenerScope>,
        caller: Result<Principal, Status>,
        headers: HeaderMap<HeaderValue>,
    ) -> (step: (AuthState, AuthAction))
        ensures
            self.admits(access, scope, caller, headers, step.0, step.1),
    {
        let principal = match caller {
            Ok(principal) => principal,
            Err(status) => {
                return (AuthState::Ended, AuthAction::Refuse(status));
            },
        };
        if let Some(status) = self.authorize(access, scope, &principal, None) {
            return (AuthState::Ended, AuthAction::Refuse(status));
        }
        let user = match &principal {
            Principal::User(_) => true,
            _ => false,
        };
        if user && self.authz_policy.is_some() {
            (AuthState::Checking(principal, headers), AuthAction::CheckPolicy)
        } else {
            (AuthState::Ended, AuthAction::Forward(Some(principal), headers))
        }
    }

    fn enter(
        &self,
        access: MethodAccess,
        scope: Option<GatewayListenerScope>,
        headers: HeaderMap<HeaderValue>,
    ) -> (step: (AuthState, AuthAction))
        ensures
            self.enters(access, scope, headers, step.0, step.1),
    {
        match self.first_step(access) {
            AuthStep::Forward => (AuthState::Ended, AuthAction::Forward(None, headers)),
            AuthStep::RunChain => (AuthState::Authenticating(headers), AuthAction::Authenticate),
            AuthStep::Decide => self.let_in(access, scope, self.resolve_principal(None), headers),
        }
    }

    /// Decides what to do with a call of a method that came in on a listener, once an event has
    /// come. The mark of how a call was authenticated is taken out before anything else.
    pub fn step(
        &self,
        access: MethodAccess,
        scope: Option<GatewayListenerScope>,
        state: AuthState,
        event: AuthEvent,
    ) -> (step: (AuthState, AuthAction))
        ensures
            self.follows(access, scope, state, event, step.0, step.1),
    {
        match (state, event) {
            (AuthState::Arrived, AuthEvent::Request(headers)) => {
                let mut kept = headers;
                strip_auth_source(&mut kept);
                self.enter(access, scope, kept)
            },
            (AuthState::Authenticating(headers), AuthEvent::Authenticated(outcome)) => self.let_in(
                access,
                scope,
                self.resolve_principal(Some(outcome)),
                headers,
            ),
            (AuthState::Checking(principal, headers), AuthEvent::Checked(objection)) => {
                match objection {
                    Some(status) => (AuthState::Ended, AuthAction::Refuse(status)),
                    None => (AuthState::Ended, AuthAction::Forward(Some(principal), headers)),
                }
            },
            (state, _) => (state, AuthAction::Nothing),
        }
    }

    /// Whether the policy is asked only of users whom nothing else keeps out.
    pub open spec fn sound(
        self,
        access: MethodAccess,
        scope: Option<GatewayListenerScope>,
        state: AuthState,
    ) -> bool {
        state matches AuthState::Checking(principal, _) ==> self.waits_for_policy(principal)
            && self.refusal(access, scope, principal, None) is None
    }

    /// A call is handed on in two cases alone: anyone may make it, or it is made for someone whom
    /// neither the listener nor the method keeps out, and to whom the policy for users, where it
    /// has a say, does not object.
    pub proof fn lemma_forwarded_calls_are_admitted(
        self,
        access: MethodAccess,
        scope: Option<GatewayListenerScope>,
        state: AuthState,
        event: AuthEvent,
        next: AuthState,
        action: AuthAction,
    )
        requires
            self.sound(access, scope, state),
            self.follows(access, scope, state, event, next, action),
        ensures
            self.sound(access, scope, next),
            action matches AuthAction::Forward(None, _) ==> access.anyone,
            action matches AuthAction::Forward(Some(principal), _) ==> {
                &&& self.refusal(access, scope, principal, None) is None
                &&& self.waits_for_policy(principal) ==> event == AuthEvent::Checked(None)
            },
    {
    }

    /// What anyone may call asks no authenticator, and is never refused.
    pub proof fn lemma_open_methods_bypass_authentication(
        self,
        access: MethodAccess,
        scope: Option<GatewayListenerScope>,
        headers: HeaderMap<HeaderValue>,
        next: AuthState,
        action: AuthAction,
    )
        requires
            access.anyone,
            self.follows(
                access,
                scope,
                AuthState::Arrived,
                AuthEvent::Request(headers),
                next,
                action,
            ),
        ensures
            next is Ended,
            action matches AuthAction::Forward(None, kept) && unmarked(headers, kept),
    {
    }

    /// The header fields of a call that came in with `headers` stay the same but for the mark,
    /// from its coming in until it is handed on.
    pub proof fn lemma_forwarded_calls_carry_no_mark(
        self,
        access: MethodAccess,
        scope: Option<GatewayListenerScope>,
        headers: HeaderMap<HeaderValue>,
        state: AuthState,
        event: AuthEvent,
        next: AuthState,
        action: AuthAction,
    )
        requires
            carries(headers, state),
            event matches AuthEvent::Request(came_in) ==> came_in == headers,
            self.follows(access, scope, state, event, next, action),
        ensures
            carries(headers, next),
            action matches AuthAction::Forward(_, kept) ==> unmarked(headers, kept)
                && !header_values(kept).dom().contains("x-openshell-auth-source"@),
    {
    }
}

/// Whether a call that came in with `headers` has these, without the mark, in a state.
pub open spec fn carries(headers: HeaderMap<HeaderValue>, state: AuthState) -> bool {
    match state {
        AuthState::Authenticating(kept) => unmarked(headers, kept),
        AuthState::Checking(_, kept) => unmarked(headers, kept),
        _ => true,
    }
}

impl<S> AuthGrpcRouter<S> {
    /// A call whose caller the authenticators name is handed on for that caller, with its header
    /// fields, wherever the listener takes such callers and the method is for them; a user is
    /// first held against the policy for users, where there is one, and is handed on if it does
    /// not object. Nobody else is handed on.
    pub proof fn lemma_named_callers_are_handed_on(
        self,
        access: MethodAccess,
        scope: Option<GatewayListenerScope>,
        principal: Principal,
        headers: HeaderMap<HeaderValue>,
        next: AuthState,
        action: AuthAction,
    )
        requires
            self.follows(
                access,
                scope,
                AuthState::Authenticating(headers),
                AuthEvent::Authenticated(Ok(Some(principal))),
                next,
                action,
            ),
        ensures
            ({
                let listened = !self.exclusive_sandbox_callback || (scope == Some(
                    GatewayListenerScope::ComputeDriverCallback,
                ) && principal is Sandbox) || (scope == Some(GatewayListenerScope::Primary)
                    && principal is User);
                let meant = (principal is User && access.users) || (principal is Sandbox
                    && access.sandboxes);
                let asked = principal is User && self.authz_policy is Some;
                &&& listened && meant && asked ==> next == AuthState::Checking(principal, headers)
                    && action is CheckPolicy
                &&& listened && meant && !asked ==> next is Ended && action == AuthAction::Forward(
                    Some(principal),
                    headers,
                )
                &&& !(listened && meant) ==> next is Ended && action is Refuse
            }),
    {
    }

    /// The policy for users has the last word on a call that waits for it: where it does not
    /// object the call is handed on for its caller, with its header fields, and where it does the
    /// call is answered with what it objects.
    pub proof fn lemma_policy_has_the_last_word(
        self,
        access: MethodAccess,
        scope: Option<GatewayListenerScope>,
        principal: Principal,
        headers: HeaderMap<HeaderValue>,
        objection: Option<Status>,
        next: AuthState,
        action: AuthAction,
    )
        requires
            self.follows(
                access,
                scope,
                AuthState::Checking(principal, headers),
                AuthEvent::Checked(objection),
                next,
                action,
            ),
        ensures
            next is Ended,
            objection is None ==> action == AuthAction::Forward(Some(principal), headers),
            objection matches Some(status) ==> action == AuthAction::Refuse(status),
    {
    }

    /// What an authenticator refuses is answered with its status.
    pub proof fn lemma_authenticator_refusals_are_answered(
        self,
        access: MethodAccess,
        scope: Option<GatewayListenerScope>,
        status: Status,
        headers: HeaderMap<HeaderValue>,
        next: AuthState,
        action: AuthAction,
    )
        requires
            self.follows(
                access,
                scope,
                AuthState::Authenticating(headers),
                AuthEvent::Authenticated(Err(status)),
                next,
                action,
            ),
        ensures
            next is Ended,
            action matches AuthAction::Refuse(answer) && answer.code == status.code
                && answer.message@ == status.message@,
    {
    }

    /// A call without a credential is made for the peer whose certificate counts; else for the
    /// developer, where users need not authenticate; else it is refused. Who it is made for is
    /// held against the listener, the method and the policy like anyone else.
    pub proof fn lemma_calls_without_a_credential(
        self,
        access: MethodAccess,
        scope: Option<GatewayListenerScope>,
        headers: HeaderMap<HeaderValue>,
        next: AuthState,
        action: AuthAction,
    )
        requires
            self.follows(
                access,
                scope,
                AuthState::Authenticating(headers),
                AuthEvent::Authenticated(Ok(None)),
                next,
                action,
            ),
        ensures
            ({
                let certified = self.mtls_auth_enabled && self.peer_identity is Some;
                let listened = !self.exclusive_sandbox_callback || scope == Some(
                    GatewayListenerScope::Primary,
                );
                let named = certified || self.allow_unauthenticated_users;
                &&& !named ==> next is Ended && (action matches AuthAction::Refuse(status)
                    && status.code == Code::Unauthenticated && status.message@
                    == "missing authorization header"@)
                &&& named && !(listened && access.users) ==> next is Ended && action is Refuse
                &&& named && listened && access.users && self.authz_policy is Some
                    ==> action is CheckPolicy && (next matches AuthState::Checking(p, kept) && kept
                    == headers && made_for(p, self.peer_identity, certified))
                &&& named && listened && access.users && self.authz_policy is None
                    ==> next is Ended && (action matches AuthAction::Forward(Some(p), kept) && kept
                    == headers && made_for(p, self.peer_identity, certified))
            }),
    {
    }

    /// Where no authenticators are configured, a call is made for the peer whose certificate
    /// counts, where certificates are the way to authenticate, and otherwise for the developer;
    /// a peer without a certificate is refused.
    pub proof fn lemma_calls_without_authenticators(
        self,
        access: MethodAccess,
        scope: Option<GatewayListenerScope>,
        headers: HeaderMap<HeaderValue>,
        next: AuthState,
        action: AuthAction,
    )
        requires
            self.authenticator_chain is None,
            !access.anyone,
            self.follows(
                access,
                scope,
                AuthState::Arrived,
                AuthEvent::Request(headers),
                next,
                action,
            ),
        ensures
            ({
                let listened = !self.exclusive_sandbox_callback || scope == Some(
                    GatewayListenerScope::Primary,
                );
                let named = !self.mtls_auth_enabled || self.peer_identity is Some;
                &&& !named ==> next is Ended && (action matches AuthAction::Refuse(status)
                    && status.code == Code::Unauthenticated && status.message@
                    == "missing client certificate"@)
                &&& named && !(listened && access.users) ==> next is Ended && action is Refuse
                &&& named && listened && access.users && self.authz_policy is Some
                    ==> action is CheckPolicy && (next matches AuthState::Checking(p, kept)
                    && header_values(kept) == header_values(headers).remove(
                    "x-openshell-auth-source"@,
                ) && made_for(p, self.peer_identity, self.mtls_auth_enabled))
                &&& named && listened && access.users && self.authz_policy is None
                    ==> next is Ended && (action matches AuthAction::Forward(Some(p), kept)
                    && header_values(kept) == header_values(headers).remove(
                    "x-openshell-auth-source"@,
                ) && made_for(p, self.peer_identity, self.mtls_auth_enabled))
            }),
    {
    }

    /// A call that not anyone may make goes to the authenticators first, where there are any,
    /// with its header fields but for the mark.
    pub proof fn lemma_authenticators_are_asked_first(
        self,
        access: MethodAccess,
        scope: Option<GatewayListenerScope>,
        headers: HeaderMap<HeaderValue>,
        next: AuthState,
        action: AuthAction,
    )
        requires
            self.follows(
                access,
                scope,
                AuthState::Arrived,
                AuthEvent::Request(headers),
                next,
                action,
            ),
        ensures
            !access.anyone && self.authenticator_chain is Some <==> action is Authenticate,
            action is Authenticate ==> (next matches AuthState::Authenticating(kept)
                && header_values(kept) == header_values(headers).remove(
                "x-openshell-auth-source"@,
            )),
            access.anyone <==> (action matches AuthAction::Forward(None, _)),
            access.anyone ==> (action matches AuthAction::Forward(None, kept) && header_values(kept)
                == header_values(headers).remove("x-openshell-auth-source"@)),
    {
    }

    /// A refusal says what stood in the way: the listener first, and then the method.
    pub proof fn lemma_refusals_name_their_reason(
        self,
        access: MethodAccess,
        scope: Option<GatewayListenerScope>,
        principal: Principal,
        headers: HeaderMap<HeaderValue>,
        next: AuthState,
        action: AuthAction,
    )
        requires
            self.follows(
                access,
                scope,
                AuthState::Authenticating(headers),
                AuthEvent::Authenticated(Ok(Some(principal))),
                next,
                action,
            ),
        ensures
            self.exclusive_sandbox_callback && scope is None ==> (action matches AuthAction::Refuse(
                status,
            ) && status.code == Code::PermissionDenied && status.message@
                == "exclusive sandbox callback request is missing listener scope"@),
            self.exclusive_sandbox_callback && scope == Some(
                GatewayListenerScope::ComputeDriverCallback,
            ) && !(principal is Sandbox) ==> (action matches AuthAction::Refuse(status)
                && status.code == Code::PermissionDenied && status.message@
                == "compute-driver callback listeners require a sandbox principal"@),
            self.exclusive_sandbox_callback && scope == Some(GatewayListenerScope::Primary)
                && principal is Sandbox ==> (action matches AuthAction::Refuse(status)
                && status.code == Code::PermissionDenied && status.message@
                == "sandbox principals must use a compute-driver callback listener"@),
            principal is Anonymous && (!self.exclusive_sandbox_callback || scope == Some(
                GatewayListenerScope::Primary,
            )) ==> (action matches AuthAction::Refuse(status) && status.code
                == Code::Unauthenticated && status.message@
                == "anonymous callers may not call authenticated methods"@),
            principal is User && !access.users && (!self.exclusive_sandbox_callback || scope == Some(
                GatewayListenerScope::Primary,
            )) ==> (action matches AuthAction::Refuse(status) && status.code
                == Code::PermissionDenied && status.message@
                == "this method requires a sandbox principal"@),
            principal is Sandbox && !access.sandboxes && (!self.exclusive_sandbox_callback || scope
                == Some(GatewayListenerScope::ComputeDriverCallback)) ==> (action matches
                AuthAction::Refuse(status) && status.code == Code::PermissionDenied
                && status.message@ == "sandbox principals may not call this method"@),
    {
    }

    /// A call that was decided stays decided, and what does not belong to a state changes
    /// nothing.
    pub proof fn lemma_decisions_are_final(
        self,
        access: MethodAccess,
        scope: Option<GatewayListenerScope>,
        state: AuthState,
        event: AuthEvent,
        next: AuthState,
        action: AuthAction,
    )
        requires
            self.follows(access, scope, state, event, next, action),
        ensures
            next is Ended && !(state is Ended) <==> action is Forward || action is Refuse,
            action is Nothing <==> !(state is Arrived && event is Request)
                && !(state is Authenticating && event is Authenticated)
                && !(state is Checking && event is Checked),
            action is Nothing ==> next == state,
    {
    }
}

/// Whether a caller is the peer with `identity`, where the certificate counts, and the developer
/// otherwise.
pub open spec fn made_for(principal: Principal, identity: Option<Identity>, certified: bool) -> bool {
    principal matches Principal::User(user) && if certified {
        &&& identity matches Some(peer)
        &&& user.identity.subject == peer.subject
        &&& user.identity.display_name == peer.display_name
        &&& user.identity.roles@ == peer.roles@
        &&& user.identity.scopes@ == peer.scopes@
        &&& user.identity.provider == peer.provider
    } else {
        &&& user.identity.subject@ == "unauthenticated-local-dev"@
        &&& texts(user.identity.roles@) == seq!["openshell-user"@, "openshell-admin"@]
        &&& texts(user.identity.scopes@) == seq!["openshell:all"@]
        &&& user.identity.provider == IdentityProvider::LocalDev
    }
}

} // verus!
