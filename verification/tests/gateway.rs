use http::{HeaderMap, HeaderValue};
use openshell::gateway::admission::{AuthAction, AuthEvent, AuthState};
use openshell::gateway::auth::{
    build_authenticator_chain, trusted_peer_identity, AuthGrpcRouter, AuthStep, AuthenticatorKind,
    AuthzPolicy, OidcConfig,
};
use openshell::gateway::headers::{
    grpc_status_from_response, grpc_status_from_response_and_trailers, is_grpc, log_response,
    record_grpc_status, request_id, text_of_header,
};
use openshell::gateway::intercept::{
    body_error_status, observation_error, BodyError, CallAction, CallEvent, CallState,
    FailureStage, GatewayInterceptorGrpcService, ObservedFrame, ResponseObserver,
};
use openshell::gateway::principal::{
    extract_peer_identity, gateway_interceptor_context, gateway_principal_fields,
    identity_from_names, identity_provider_name, unauthenticated_dev_user_principal, Identity,
    IdentityProvider, Principal, SandboxIdentitySource, SandboxPrincipal, UserPrincipal,
};
use openshell::gateway::rate_limit::{GrpcRateLimitService, GrpcRateLimiter, Readiness};
use openshell::gateway::routing::{
    callback_listener_rejection, grpc_method_from_path, grpc_service_method,
    listener_allows_request, make_request_id, make_request_span, normalize_http_path,
    otel_span_name, GatewayListenerContextService, GatewayListenerScope, GrpcRoute, GrpcRouter,
    MethodAccess, MultiplexService, MultiplexedService, Rejection, Route, RpcAuth, RpcAuthTable,
};
use openshell::gateway::service::{
    clamp_limit, extract_principal, persistence_error_to_status, DriverInfoSnapshot,
    OpenShellService, PersistenceError, ServiceStatus, MAX_PAGE_SIZE,
};
use openshell::gateway::status::{Code, Status};

const SANDBOX_ONLY: MethodAccess = MethodAccess { anyone: false, users: false, sandboxes: true };
const BOTH: MethodAccess = MethodAccess { anyone: false, users: true, sandboxes: true };
const USERS: MethodAccess = MethodAccess { anyone: false, users: true, sandboxes: false };
const ANYONE: MethodAccess = MethodAccess { anyone: true, users: false, sandboxes: false };

fn table() -> RpcAuthTable {
    let methods = [
        ("/openshell.v1.OpenShell/ConnectSupervisor", SANDBOX_ONLY),
        ("/openshell.v1.OpenShell/RelayStream", SANDBOX_ONLY),
        ("/openshell.v1.OpenShell/GetSandboxConfig", BOTH),
        ("/openshell.v1.OpenShell/ReportPolicyStatus", SANDBOX_ONLY),
        ("/openshell.v1.OpenShell/PushSandboxLogs", SANDBOX_ONLY),
        ("/openshell.v1.OpenShell/GetSandboxProviderEnvironment", SANDBOX_ONLY),
        ("/openshell.v1.OpenShell/SubmitPolicyAnalysis", SANDBOX_ONLY),
        ("/openshell.v1.OpenShell/RefreshSandboxToken", SANDBOX_ONLY),
        ("/openshell.v1.OpenShell/IssueSandboxToken", SANDBOX_ONLY),
        ("/openshell.inference.v1.Inference/GetInferenceBundle", SANDBOX_ONLY),
        ("/openshell.v1.OpenShell/Health", ANYONE),
        ("/openshell.v1.OpenShell/ListSandboxes", USERS),
        ("/openshell.v1.OpenShell/DeleteSandbox", USERS),
        ("/openshell.v1.OpenShell/CreateProvider", USERS),
        ("/openshell.v1.OpenShell/ApproveDraftChunk", USERS),
        ("/openshell.inference.v1.Inference/GetInferenceRoute", USERS),
        ("/openshell.inference.v1.Inference/SetInferenceRoute", USERS),
    ];
    RpcAuthTable {
        methods: methods
            .into_iter()
            .map(|(path, access)| RpcAuth { path: path.to_string(), access })
            .collect(),
        unlisted: USERS,
    }
}

#[test]
fn clamp_limit_zero_returns_default() {
    assert_eq!(clamp_limit(0, 100, MAX_PAGE_SIZE), 100);
    assert_eq!(clamp_limit(0, 50, MAX_PAGE_SIZE), 50);
}

#[test]
fn clamp_limit_within_range_passes_through() {
    assert_eq!(clamp_limit(1, 100, MAX_PAGE_SIZE), 1);
    assert_eq!(clamp_limit(500, 100, MAX_PAGE_SIZE), 500);
    assert_eq!(
        clamp_limit(MAX_PAGE_SIZE, 100, MAX_PAGE_SIZE),
        MAX_PAGE_SIZE
    );
}

#[test]
fn clamp_limit_exceeding_max_is_capped() {
    assert_eq!(
        clamp_limit(MAX_PAGE_SIZE + 1, 100, MAX_PAGE_SIZE),
        MAX_PAGE_SIZE
    );
    assert_eq!(clamp_limit(u32::MAX, 100, MAX_PAGE_SIZE), MAX_PAGE_SIZE);
}

#[test]
fn callback_listener_allows_sandbox_callback_rpcs() {
    let scope = GatewayListenerScope::ComputeDriverCallback;
    let callback_paths = [
        "/openshell.v1.OpenShell/ConnectSupervisor",
        "/openshell.v1.OpenShell/RelayStream",
        "/openshell.v1.OpenShell/GetSandboxConfig",
        "/openshell.v1.OpenShell/ReportPolicyStatus",
        "/openshell.v1.OpenShell/PushSandboxLogs",
        "/openshell.v1.OpenShell/GetSandboxProviderEnvironment",
        "/openshell.v1.OpenShell/SubmitPolicyAnalysis",
        "/openshell.v1.OpenShell/RefreshSandboxToken",
        "/openshell.inference.v1.Inference/GetInferenceBundle",
    ];

    for path in callback_paths {
        assert!(
            listener_allows_request(Some(scope), true, path, &table()),
            "callback listener should allow {path}"
        );
    }
}

#[test]
fn callback_listener_surface_matches_rpc_auth_metadata() {
    let scope = GatewayListenerScope::ComputeDriverCallback;
    let table = table();

    for method in &table.methods {
        assert_eq!(
            listener_allows_request(Some(scope), true, &method.path, &table),
            table.is_sandbox_callable(&method.path),
            "callback listener exposure must follow rpc_auth metadata for {}",
            method.path
        );
        assert_eq!(
            table.is_sandbox_callable(&method.path),
            table.find(&method.path).sandboxes
        );
    }
}

#[test]
fn callback_listener_rejects_non_callback_routes() {
    let scope = GatewayListenerScope::ComputeDriverCallback;
    let rejected_grpc_paths = [
        "/grpc.health.v1.Health/Check",
        "/grpc.reflection.v1.ServerReflection/ServerReflectionInfo",
        "/openshell.v1.OpenShell/ListSandboxes",
        "/openshell.v1.OpenShell/DeleteSandbox",
        "/openshell.v1.OpenShell/CreateProvider",
        "/openshell.inference.v1.Inference/GetInferenceRoute",
        "/openshell.inference.v1.Inference/SetInferenceRoute",
    ];

    for path in rejected_grpc_paths {
        assert!(
            !listener_allows_request(Some(scope), true, path, &table()),
            "callback listener should reject {path}"
        );
    }
    assert!(!listener_allows_request(Some(scope), false, "/health", &table()));
    assert!(!listener_allows_request(Some(scope), false, "/service", &table()));
}

#[test]
fn primary_listener_routing_is_unchanged() {
    let primary = GatewayListenerScope::Primary;
    let paths = [
        "/grpc.health.v1.Health/Check",
        "/openshell.v1.OpenShell/ListSandboxes",
        "/openshell.inference.v1.Inference/GetInferenceRoute",
        "/health",
        "/service",
    ];

    for path in paths {
        assert!(listener_allows_request(Some(primary), true, path, &table()));
        assert!(listener_allows_request(Some(primary), false, path, &table()));
        assert!(listener_allows_request(None, true, path, &table()));
        assert!(listener_allows_request(None, false, path, &table()));
    }
}

#[test]
fn callback_listener_rejections_use_protocol_appropriate_statuses() {
    match callback_listener_rejection(true) {
        Rejection::Grpc(status) => assert_eq!(status.code, Code::PermissionDenied),
        Rejection::Http { .. } => panic!("a remote procedure call is answered by its protocol"),
    }

    match callback_listener_rejection(false) {
        Rejection::Http { status, .. } => assert_eq!(status, 403),
        Rejection::Grpc(_) => panic!("a request is answered by its protocol"),
    }
}

#[test]
fn uuid_request_id_generates_valid_uuid() {
    let id = make_request_id();
    uuid::Uuid::parse_str(&id).expect("should be a valid UUID");
}

#[test]
fn uuid_request_id_generates_unique_ids() {
    let id1 = make_request_id();
    let id2 = make_request_id();
    assert_ne!(id1, id2);
}

fn headers(entries: &[(&'static str, &'static str)]) -> HeaderMap<HeaderValue> {
    let mut headers = HeaderMap::new();
    for (name, value) in entries {
        headers.insert(*name, HeaderValue::from_static(value));
    }
    headers
}

#[test]
fn grpc_trailer_status_takes_precedence_over_headers() {
    let response = headers(&[("grpc-status", "0")]);
    let trailers = headers(&[("grpc-status", "7")]);

    assert_eq!(
        grpc_status_from_response_and_trailers(&response, Some(&trailers)),
        "7"
    );
    assert_eq!(grpc_status_from_response_and_trailers(&response, None), "0");
    assert_eq!(
        grpc_status_from_response_and_trailers(&trailers, Some(&headers(&[]))),
        "7"
    );
    assert_eq!(grpc_status_from_response(&headers(&[])), "0");
}

#[test]
fn request_id_appears_in_trace_span() {
    let span = make_request_span(
        "GET",
        "/test-path",
        &headers(&[("x-request-id", "trace-test-id-12345")]),
    );
    assert_eq!(span.request_id, "trace-test-id-12345");
    assert_eq!(span.otel_name, "GET");
    assert!(!span.probe);
    assert!(span.rpc.is_none());
    let span = make_request_span("GET", "/healthz", &headers(&[]));
    assert!(span.probe);
    assert_eq!(span.request_id, "-");
}

#[test]
fn grpc_request_spans_are_named_for_the_rpc() {
    assert_eq!(
        otel_span_name("POST", "/openshell.v1.OpenShell/CreateSandbox"),
        "openshell.v1.OpenShell/CreateSandbox"
    );
    assert_eq!(
        otel_span_name(
            "POST",
            "/openshell.inference.v1.Inference/GetInferenceBundle"
        ),
        "openshell.inference.v1.Inference/GetInferenceBundle"
    );
}

#[test]
fn http_request_spans_do_not_include_the_literal_path() {
    assert_eq!(otel_span_name("GET", "/users/12345"), "GET");
    assert_eq!(otel_span_name("GET", "/users/67890"), "GET");
}

#[test]
fn bare_paths_fall_back_to_the_http_shape() {
    assert_eq!(otel_span_name("GET", "/"), "GET");
    assert_eq!(otel_span_name("POST", "/Foo"), "POST");
}

#[test]
fn grpc_method_extracts_last_segment() {
    assert_eq!(
        grpc_method_from_path("/openshell.v1.OpenShell/CreateSandbox"),
        "CreateSandbox"
    );
}

#[test]
fn grpc_method_extracts_inference_service() {
    assert_eq!(
        grpc_method_from_path("/openshell.inference.v1.Inference/GetInferenceBundle"),
        "GetInferenceBundle"
    );
}

#[test]
fn grpc_method_handles_bare_path() {
    assert_eq!(grpc_method_from_path("Health"), "Health");
}

#[test]
fn grpc_method_handles_single_slash() {
    assert_eq!(grpc_method_from_path("/"), "");
}

#[test]
fn grpc_method_handles_empty_string() {
    assert_eq!(grpc_method_from_path(""), "");
}

#[test]
fn normalize_ws_tunnel() {
    assert_eq!(normalize_http_path("/_ws_tunnel"), "/_ws_tunnel");
}

#[test]
fn normalize_ws_tunnel_with_trailing() {
    assert_eq!(normalize_http_path("/_ws_tunnel/foo"), "/_ws_tunnel");
}

#[test]
fn normalize_auth_path() {
    assert_eq!(normalize_http_path("/auth/connect"), "/auth");
}

#[test]
fn normalize_auth_with_query() {
    assert_eq!(
        normalize_http_path("/auth/connect?callback_port=12345&code=AB7-X9KM"),
        "/auth"
    );
}

#[test]
fn normalize_unknown_path_collapses_to_unknown() {
    assert_eq!(normalize_http_path("/random/scanner/probe"), "unknown");
}

#[test]
fn normalize_empty_path() {
    assert_eq!(normalize_http_path(""), "unknown");
}

#[test]
fn normalize_root_path() {
    assert_eq!(normalize_http_path("/"), "unknown");
}

#[test]
fn services_and_methods_are_told_apart() {
    assert_eq!(
        grpc_service_method("/a.B/C"),
        Some(("a.B".to_string(), "C".to_string()))
    );
    assert_eq!(grpc_service_method("/Foo"), None);
}

#[test]
fn headers_are_read_as_text() {
    let mut map = headers(&[("content-type", "application/grpc+proto"), ("x-request-id", "r-1")]);
    assert!(is_grpc(&map));
    assert_eq!(request_id(&map).as_deref(), Some("r-1"));
    assert_eq!(text_of_header(&map, "x-request-id").as_deref(), Some("r-1"));
    map.insert("x-request-id", HeaderValue::from_bytes(&[0xe4]).unwrap());
    assert_eq!(request_id(&map), None);
    assert!(!is_grpc(&headers(&[("content-type", "application/json")])));
    assert!(!is_grpc(&headers(&[])));
}

#[test]
fn outcomes_are_recorded() {
    let record = record_grpc_status(&headers(&[("grpc-status", "5")])).unwrap();
    assert_eq!((record.code, record.error), (5, true));
    assert!(record_grpc_status(&headers(&[("grpc-status", "five")])).is_none());
    let record = log_response(200, &headers(&[("grpc-status", "0")]));
    assert_eq!((record.grpc_status, record.error), (Some(0), false));
    assert!(log_response(503, &headers(&[])).error);
    assert!(!log_response(404, &headers(&[])).error);
    assert!(log_response(200, &headers(&[("grpc-status", "7")])).error);
}

#[test]
fn requests_go_to_their_service() {
    let service = MultiplexedService::new(1, 2);
    match service.route(None, true, "/openshell.v1.OpenShell/Health", &table()) {
        Route::Grpc { method } => assert_eq!(method, "Health"),
        _ => panic!("a remote procedure call"),
    }
    match service.route(None, false, "/auth/connect", &table()) {
        Route::Http { path } => assert_eq!(path, "/auth"),
        _ => panic!("a request"),
    }
    let callback = Some(GatewayListenerScope::ComputeDriverCallback);
    assert!(matches!(
        service.route(callback, false, "/health", &table()),
        Route::Refuse(Rejection::Http { status: 403, .. })
    ));
    let router = GrpcRouter::new((), ());
    assert_eq!(
        router.route("/openshell.inference.v1.Inference/GetInferenceRoute"),
        GrpcRoute::Inference
    );
    assert_eq!(router.route("/openshell.v1.OpenShell/Health"), GrpcRoute::OpenShell);
    assert_eq!(MultiplexService::new(3).state, 3);
    let context = GatewayListenerContextService::new((), GatewayListenerScope::Primary);
    assert_eq!(context.listener_scope, GatewayListenerScope::Primary);
}

#[test]
fn callback_listener_filter_is_applied_before_route_dispatch() {
    let service = MultiplexedService::new(1, 2);
    let callback = Some(GatewayListenerScope::ComputeDriverCallback);
    assert!(matches!(
        service.route(callback, false, "/healthz", &table()),
        Route::Refuse(Rejection::Http { status: 403, .. })
    ));
    assert!(matches!(
        service.route(callback, true, "/openshell.v1.OpenShell/ListSandboxes", &table()),
        Route::Refuse(Rejection::Grpc(status)) if status.code == Code::PermissionDenied
    ));
    assert!(!matches!(
        service.route(callback, true, "/openshell.v1.OpenShell/ConnectSupervisor", &table()),
        Route::Refuse(_)
    ));
}

const SECOND: u128 = 1_000_000_000;

#[test]
fn the_rate_is_limited_by_the_window() {
    let mut limiter = GrpcRateLimiter::from_config(Some((2, SECOND)), 0).unwrap();
    assert!(limiter.has_capacity(0));
    assert!(limiter.allow(1));
    assert!(limiter.allow(2));
    assert!(!limiter.has_capacity(3));
    assert!(!limiter.allow(SECOND - 1));
    assert!(limiter.allow(SECOND));
    assert!(GrpcRateLimiter::from_config(None, 0).is_none());
}

#[test]
fn a_call_that_was_not_asked_for_is_refused() {
    let mut limiter = GrpcRateLimiter::from_config(Some((1, SECOND)), 0);
    let mut service = GrpcRateLimitService::new(());
    assert_eq!(service.poll_ready(&mut limiter, 0), Readiness::AskInner);
    assert!(service.call(&mut limiter, 0).is_none());
    assert_eq!(service.poll_ready(&mut limiter, 1), Readiness::RateLimited);
    let refusal = service
        .call(&mut limiter, 2 * SECOND)
        .expect("refused though a new window began");
    assert_eq!(refusal.code, Code::ResourceExhausted);
    assert_eq!(refusal.message, "gRPC rate limit exceeded");
    assert_eq!(service.poll_ready(&mut limiter, 2 * SECOND), Readiness::AskInner);
    assert!(service.call(&mut limiter, 2 * SECOND).is_none());
    let mut open = GrpcRateLimitService::new(());
    assert_eq!(open.poll_ready(&mut None, 0), Readiness::AskInner);
    assert!(open.call(&mut None, 0).is_none());
}

#[test]
fn services_take_turns_within_one_window() {
    let mut limiter = GrpcRateLimiter::from_config(Some((2, SECOND)), 0);
    let mut first = GrpcRateLimitService::new(());
    let mut second = first.clone();
    assert_eq!(first.poll_ready(&mut limiter, 1), Readiness::AskInner);
    assert_eq!(second.poll_ready(&mut limiter, 2), Readiness::AskInner);
    assert!(second.call(&mut limiter, 3).is_none());
    assert!(first.call(&mut limiter, 4).is_none());
    assert!(second.call(&mut limiter, 5).is_some());
    assert!(first.call(&mut limiter, SECOND - 1).is_some());
    assert!(first.call(&mut limiter, SECOND).is_none());
}

fn identity(subject: &str) -> Identity {
    Identity {
        subject: subject.to_string(),
        display_name: None,
        roles: vec!["openshell-user".to_string(), "extra".to_string()],
        scopes: Vec::new(),
        provider: IdentityProvider::Oidc,
    }
}

fn user() -> Principal {
    Principal::User(UserPrincipal { identity: identity("alice") })
}

fn sandbox() -> Principal {
    Principal::Sandbox(SandboxPrincipal {
        sandbox_id: "sbx-1".to_string(),
        source: SandboxIdentitySource::BootstrapJwt,
        trust_domain: Some("local".to_string()),
    })
}

#[test]
fn authenticators_stand_in_order() {
    let chain = build_authenticator_chain(true, true, true).unwrap();
    assert_eq!(
        chain.authenticators,
        vec![
            AuthenticatorKind::K8sServiceAccount,
            AuthenticatorKind::SandboxJwt,
            AuthenticatorKind::Oidc
        ]
    );
    assert!(build_authenticator_chain(false, false, false).is_none());
    let policy = AuthzPolicy::from_config(&OidcConfig {
        admin_role: "admin".to_string(),
        user_role: "user".to_string(),
        scopes_claim: String::new(),
    });
    assert!(!policy.scopes_enabled);
}

fn message(result: Result<Principal, Status>) -> (Code, String) {
    match result {
        Ok(_) => panic!("nobody is authenticated"),
        Err(status) => (status.code, status.message),
    }
}

#[test]
fn callers_are_resolved() {
    let chain = || build_authenticator_chain(false, false, true);
    let router = AuthGrpcRouter::new((), chain(), None);
    assert_eq!(router.first_step(ANYONE), AuthStep::Forward);
    assert_eq!(router.first_step(BOTH), AuthStep::RunChain);
    assert!(matches!(
        router.resolve_principal(Some(Ok(Some(sandbox())))),
        Ok(Principal::Sandbox(_))
    ));
    assert_eq!(
        message(router.resolve_principal(Some(Ok(None)))),
        (Code::Unauthenticated, "missing authorization header".to_string())
    );
    assert_eq!(
        message(router.resolve_principal(Some(Err(Status::new(Code::Internal, "boom"))))),
        (Code::Internal, "boom".to_string())
    );

    let peer = Some(identity("bob"));
    let router = AuthGrpcRouter::with_peer_identity((), chain(), None, peer, true, false, false);
    match router.resolve_principal(Some(Ok(None))) {
        Ok(Principal::User(user)) => assert_eq!(user.identity.subject, "bob"),
        _ => panic!("the certificate counts"),
    }
    match router.resolve_principal(None) {
        Ok(Principal::User(user)) => assert_eq!(user.identity.subject, "bob"),
        _ => panic!("the certificate counts"),
    }
    let router = AuthGrpcRouter::with_peer_identity((), None, None, None, true, false, false);
    assert_eq!(router.first_step(BOTH), AuthStep::Decide);
    assert_eq!(
        message(router.resolve_principal(None)),
        (Code::Unauthenticated, "missing client certificate".to_string())
    );
    let router = AuthGrpcRouter::with_peer_identity((), chain(), None, None, false, true, false);
    match router.resolve_principal(Some(Ok(None))) {
        Ok(Principal::User(user)) => {
            assert_eq!(user.identity.subject, "unauthenticated-local-dev");
            assert_eq!(user.identity.roles, vec!["openshell-user", "openshell-admin"]);
        }
        _ => panic!("the developer is let in"),
    }
}

#[test]
fn callers_are_kept_to_what_they_may_do() {
    let router = AuthGrpcRouter::new((), None, None);
    let refusal = |access: MethodAccess, principal: &Principal| {
        router
            .authorize(access, None, principal, None)
            .map(|status| status.message)
    };
    assert_eq!(refusal(USERS, &user()), None);
    assert_eq!(refusal(SANDBOX_ONLY, &sandbox()), None);
    assert_eq!(
        refusal(SANDBOX_ONLY, &user()).as_deref(),
        Some("this method requires a sandbox principal")
    );
    assert_eq!(
        refusal(USERS, &sandbox()).as_deref(),
        Some("sandbox principals may not call this method")
    );
    assert_eq!(
        refusal(BOTH, &Principal::Anonymous).as_deref(),
        Some("anonymous callers may not call authenticated methods")
    );
    let policy = AuthzPolicy {
        admin_role: String::new(),
        user_role: "user".to_string(),
        scopes_enabled: false,
    };
    let router = AuthGrpcRouter::new((), None, Some(policy));
    let objection = Status::new(Code::PermissionDenied, "role 'user' required");
    assert_eq!(
        router.authorize(USERS, None, &user(), Some(objection)).unwrap().message,
        "role 'user' required"
    );
}

#[test]
fn listeners_are_exclusive_where_that_is_asked_for() {
    let router = AuthGrpcRouter::with_peer_identity((), None, None, None, false, false, true);
    let callback = Some(GatewayListenerScope::ComputeDriverCallback);
    let primary = Some(GatewayListenerScope::Primary);
    let refusal = |scope: Option<GatewayListenerScope>, principal: &Principal| {
        router
            .authorize(BOTH, scope, principal, None)
            .map(|status| status.message)
    };
    assert_eq!(refusal(callback, &sandbox()), None);
    assert_eq!(refusal(primary, &user()), None);
    assert_eq!(
        refusal(callback, &user()).as_deref(),
        Some("compute-driver callback listeners require a sandbox principal")
    );
    assert_eq!(
        refusal(primary, &sandbox()).as_deref(),
        Some("sandbox principals must use a compute-driver callback listener")
    );
    assert_eq!(
        refusal(None, &user()).as_deref(),
        Some("exclusive sandbox callback request is missing listener scope")
    );
    assert!(trusted_peer_identity(false, Some(identity("bob"))).is_none());
    assert!(trusted_peer_identity(true, Some(identity("bob"))).is_some());
}

#[test]
fn principals_are_told_to_interceptors() {
    let fields = gateway_principal_fields(&user());
    let field = |name: &str| fields.get(name).cloned();
    assert_eq!(field("kind").as_deref(), Some("user"));
    assert_eq!(field("subject").as_deref(), Some("alice"));
    assert_eq!(field("provider").as_deref(), Some("oidc"));
    assert_eq!(field("roles").as_deref(), Some("openshell-user,extra"));
    assert_eq!(field("scopes"), None);
    assert_eq!(field("display_name"), None);
    let fields = gateway_principal_fields(&sandbox());
    assert_eq!(fields.get("sandbox_id").unwrap(), "sbx-1");
    assert_eq!(fields.get("source").unwrap(), "bootstrap_jwt");
    assert_eq!(fields.get("trust_domain").unwrap(), "local");
    let fields = gateway_interceptor_context(None);
    assert_eq!(fields.get("kind").unwrap(), "unknown");
    let fields = gateway_interceptor_context(Some(&Principal::Anonymous));
    assert_eq!(fields.get("kind").unwrap(), "anonymous");
    assert_eq!(identity_provider_name(IdentityProvider::LocalDev), "local_dev");
    assert!(matches!(unauthenticated_dev_user_principal(), Principal::User(_)));
}

#[test]
fn peers_are_known_by_their_certificate() {
    let mut params = rcgen::CertificateParams::new(vec!["localhost".to_string()]).unwrap();
    params
        .distinguished_name
        .push(rcgen::DnType::CommonName, "alice");
    params
        .distinguished_name
        .push(rcgen::DnType::OrganizationalUnitName, "openshell-user");
    let key = rcgen::KeyPair::generate().unwrap();
    let certificate = params.self_signed(&key).unwrap();
    let der = certificate.der().to_vec();
    let identity = extract_peer_identity(&vec![der]).expect("a certificate");
    assert_eq!(identity.subject, "alice");
    assert_eq!(identity.display_name.as_deref(), Some("alice"));
    assert_eq!(identity.roles, vec!["openshell-user"]);
    assert_eq!(identity.provider, IdentityProvider::Mtls);
    assert!(extract_peer_identity(&vec![vec![1, 2, 3]]).is_none());
    assert!(extract_peer_identity(&Vec::new()).is_none());
    let identity = identity_from_names(&vec![None], &vec![None, Some("a".to_string())]);
    assert_eq!(identity.subject, "unknown");
    assert_eq!(identity.roles, vec!["a"]);
}

#[test]
fn calls_are_evaluated_before_they_are_made() {
    let service = GatewayInterceptorGrpcService::new((), Some(()));
    assert!(service.interceptors.is_some());
    let (state, action) = CallState::Received.step(CallEvent::Arrived { intercepted: true });
    assert!(matches!(action, CallAction::ReadBody));
    let (state, action) = state.step(CallEvent::BodyRead(Ok(vec![1])));
    assert!(matches!(action, CallAction::Evaluate(body) if body == vec![1]));
    let (state, action) = state.step(CallEvent::Evaluated(Ok(vec![2])));
    assert!(matches!(action, CallAction::CallInner(body) if body == vec![2]));
    let (state, action) = state.step(CallEvent::Answered {
        headers: headers(&[]),
        post_commit: true,
    });
    assert!(matches!(action, CallAction::ReadResponse));
    let (state, action) = state.step(CallEvent::ResponseRead {
        headers: headers(&[]),
        trailers: Ok(Some(headers(&[("grpc-status", "0")]))),
    });
    assert!(matches!(action, CallAction::EvaluatePostCommit));
    let (state, action) =
        state.step(CallEvent::PostCommitEvaluated(Err(Status::new(Code::Internal, "x"))));
    assert!(matches!(action, CallAction::Return(Some(FailureStage::Evaluation))));
    assert!(matches!(state, CallState::Ended));
}

#[test]
fn a_call_takes_only_what_it_waits_for() {
    let arrived = CallEvent::Arrived { intercepted: true };
    assert!(CallState::Received.can_take(&arrived));
    assert!(!CallState::ReadingBody.can_take(&arrived));
    assert!(!CallState::Ended.can_take(&arrived));
    assert!(CallState::Evaluating.can_take(&CallEvent::Evaluated(Ok(Vec::new()))));
    assert!(!CallState::Calling.can_take(&CallEvent::Evaluated(Ok(Vec::new()))));
}

#[test]
fn a_call_that_cannot_be_looked_at_is_answered_all_the_same() {
    let (_, action) = CallState::Received.step(CallEvent::Arrived { intercepted: false });
    assert!(matches!(action, CallAction::PassThrough));
    let (_, action) = CallState::ReadingBody.step(CallEvent::BodyRead(Err(BodyError::TooLarge)));
    assert!(matches!(action, CallAction::Refuse(status) if status.code == Code::ResourceExhausted));
    let status = body_error_status(&BodyError::Failed("reset".to_string()));
    assert!(status
        .message
        .ends_with("failed to read gRPC request body for interceptor evaluation: reset"));
    let (_, action) = CallState::ReadingResponse.step(CallEvent::ResponseRead {
        headers: headers(&[]),
        trailers: Err("reset".to_string()),
    });
    assert!(matches!(action, CallAction::Return(Some(FailureStage::ResponseBody))));
    let (_, action) = CallState::Calling.step(CallEvent::Answered {
        headers: headers(&[("grpc-status", "5")]),
        post_commit: true,
    });
    assert!(matches!(action, CallAction::Return(None)));
    assert_eq!(
        observation_error("reset"),
        "failed to read gRPC response for post-commit evaluation: reset"
    );
}

#[test]
fn answers_are_gathered_as_they_pass() {
    let mut observer: ResponseObserver<String> = ResponseObserver::new();
    observer.see(Ok(ObservedFrame::Data(vec![1, 2])));
    observer.see(Ok(ObservedFrame::Data(vec![3])));
    observer.see(Ok(ObservedFrame::Trailers(headers(&[("grpc-status", "0")]))));
    assert!(!observer.is_broken());
    let (bytes, trailers) = observer.observation().unwrap();
    assert_eq!(bytes, vec![1, 2, 3]);
    assert!(trailers.is_some());
    assert_eq!(observer.into_frames().len(), 3);
}

#[test]
fn intercepted_grpc_response_preserves_body_and_trailers() {
    let bytes = b"committed-response".to_vec();
    let trailers = headers(&[("grpc-status", "0")]);
    let mut observer: ResponseObserver<Status> = ResponseObserver::new();
    observer.see(Ok(ObservedFrame::Data(bytes.clone())));
    observer.see(Ok(ObservedFrame::Trailers(trailers.clone())));

    let (observed, observed_trailers) = observer.observation().unwrap();
    assert_eq!(observed, bytes);
    assert_eq!(observed_trailers, Some(&trailers));
    assert_eq!(
        grpc_status_from_response_and_trailers(&headers(&[]), observed_trailers),
        "0"
    );

    let mut frames = observer.into_frames().into_iter();
    assert!(matches!(frames.next(), Some(Ok(ObservedFrame::Data(data))) if data == bytes));
    assert!(matches!(frames.next(), Some(Ok(ObservedFrame::Trailers(t))) if t == trailers));
    assert!(frames.next().is_none());
}

#[test]
fn intercepted_grpc_response_preserves_body_error() {
    let bytes = b"committed-response-prefix".to_vec();
    let mut observer = ResponseObserver::new();
    observer.see(Ok(ObservedFrame::Data(bytes.clone())));
    observer.see(Err(Status::new(Code::Unavailable, "response stream failed")));
    assert!(observer.is_broken());

    let failure = observer.observation().unwrap_err();
    let observation_error = observation_error(&failure.message);
    assert!(observation_error.contains("failed to read gRPC response"));
    assert!(observation_error.contains("response stream failed"));
    let mut frames = observer.into_frames().into_iter();
    assert!(matches!(frames.next(), Some(Ok(ObservedFrame::Data(data))) if data == bytes));
    let status = frames.next().unwrap().unwrap_err();
    assert_eq!(status.code, Code::Unavailable);
    assert_eq!(status.message, "response stream failed");
    assert!(frames.next().is_none());
}

#[test]
fn storage_errors_become_statuses() {
    let status = persistence_error_to_status(
        PersistenceError::Conflict { current_resource_version: Some(7) },
        "update sandbox",
    );
    assert_eq!(status.code, Code::Aborted);
    assert_eq!(
        status.message,
        "update sandbox failed due to concurrent modification (current resource_version: 7)"
    );
    let status = persistence_error_to_status(
        PersistenceError::Conflict { current_resource_version: None },
        "update",
    );
    assert!(status.message.ends_with("(current resource_version: unknown)"));
    let status = persistence_error_to_status(PersistenceError::Other("disk".to_string()), "save");
    assert_eq!((status.code, status.message.as_str()), (Code::Internal, "save failed: disk"));
}

#[test]
fn the_gateway_tells_of_itself() {
    let service = OpenShellService::new(5);
    assert_eq!(service.state, 5);
    let health = service.health("0.9");
    assert_eq!((health.status, health.version.as_str()), (ServiceStatus::Healthy, "0.9"));
    let info = service.get_gateway_info(
        "0.9",
        &vec![DriverInfoSnapshot {
            name: "docker".to_string(),
            driver_name: "in-tree".to_string(),
            driver_version: "1".to_string(),
        }],
    );
    assert_eq!(info.gateway_version, "0.9");
    assert_eq!(info.compute_drivers[0].name, "docker");
    let capabilities = info.compute_drivers[0].capabilities.as_ref().unwrap();
    assert_eq!(capabilities.driver_name, "in-tree");
    assert_eq!(capabilities.driver_version, "1");
    let caller = user();
    assert!(extract_principal(Some(&caller)).is_ok());
    match extract_principal(None) {
        Err(status) => assert_eq!((status.code, status.message.as_str()), (Code::Internal, "missing principal")),
        Ok(_) => panic!("nobody is carried"),
    }
}

fn request() -> AuthEvent {
    AuthEvent::Request(headers(&[]))
}

#[test]
fn the_mark_of_authentication_is_taken_out() {
    let mut fields = headers(&[("authorization", "Bearer t"), ("x-request-id", "7")]);
    fields.append("x-openshell-auth-source", HeaderValue::from_static("sandbox"));
    fields.append("X-OpenShell-Auth-Source", HeaderValue::from_static("again"));
    fields.append("x-request-id", HeaderValue::from_static("8"));
    assert_eq!(fields.len(), 5);
    let health = table().find("/openshell.v1.OpenShell/Health");
    let event = AuthEvent::Request(fields.clone());
    match AuthGrpcRouter::new((), None, None).step(health, None, AuthState::Arrived, event).1 {
        AuthAction::Forward(None, kept) => {
            assert_eq!(kept.len(), 3);
            assert_eq!(kept.get_all("x-request-id").iter().collect::<Vec<_>>(), ["7", "8"]);
            assert!(!kept.contains_key("x-openshell-auth-source"));
            assert_eq!(kept["authorization"], "Bearer t");
            assert_eq!(kept["x-request-id"], "7");
        }
        _ => panic!("anyone may ask for health"),
    }
    let router = AuthGrpcRouter::new((), mocked(), None);
    let event = AuthEvent::Request(fields);
    let (state, _) = router.step(USERS, None, AuthState::Arrived, event);
    assert!(
        matches!(&state, AuthState::Authenticating(kept) if kept.len() == 3),
        "the authenticators do not see it"
    );
    let outcome = AuthEvent::Authenticated(Ok(Some(user_principal("alice"))));
    let (_, action) = router.step(USERS, None, state, outcome);
    assert!(matches!(action, AuthAction::Forward(Some(_), kept) if kept.len() == 3));
}

type Answer = Result<Option<Principal>, Status>;

/// The course of a call, given what the authenticators say of it: for whom it reaches the service,
/// or how it is refused.
fn call(
    router: &AuthGrpcRouter<()>,
    path: &str,
    scope: Option<GatewayListenerScope>,
    outcome: Answer,
) -> Answer {
    let access = table().find(path);
    let mut outcome = Some(outcome);
    let mut state = AuthState::Arrived;
    let mut event = AuthEvent::Request(headers(&[("x-openshell-auth-source", "sandbox")]));
    loop {
        let (next, action) = router.step(access, scope, state, event);
        state = next;
        event = match action {
            AuthAction::Authenticate => AuthEvent::Authenticated(outcome.take().unwrap()),
            AuthAction::CheckPolicy => AuthEvent::Checked(None),
            AuthAction::Forward(principal, headers) => {
                assert!(headers.is_empty());
                return Ok(principal);
            }
            AuthAction::Refuse(status) => return Err(status),
            AuthAction::Nothing => panic!("the call stands still"),
        };
    }
}

fn refused(answer: Answer) -> Code {
    match answer {
        Ok(_) => panic!("the call reached the service"),
        Err(status) => status.code,
    }
}

fn mocked() -> Option<openshell::gateway::auth::AuthenticatorChain> {
    build_authenticator_chain(false, true, true)
}

fn user_principal(subject: &str) -> Principal {
    Principal::User(UserPrincipal {
        identity: Identity {
            subject: subject.to_string(),
            display_name: None,
            roles: vec![],
            scopes: vec![],
            provider: IdentityProvider::Oidc,
        },
    })
}

fn mtls_identity(subject: &str) -> Identity {
    Identity {
        subject: subject.to_string(),
        display_name: Some(subject.to_string()),
        roles: vec!["openshell-user".to_string()],
        scopes: vec![],
        provider: IdentityProvider::Mtls,
    }
}

fn sandbox_principal() -> Principal {
    Principal::Sandbox(SandboxPrincipal {
        sandbox_id: "sandbox-a".to_string(),
        source: SandboxIdentitySource::BootstrapJwt,
        trust_domain: Some("openshell".to_string()),
    })
}

const LIST_SANDBOXES: &str = "/openshell.v1.OpenShell/ListSandboxes";
const GET_SANDBOX_CONFIG: &str = "/openshell.v1.OpenShell/GetSandboxConfig";

#[test]
fn mtls_peer_identity_fills_missing_principal_when_enabled() {
    let router = AuthGrpcRouter::with_peer_identity(
        (),
        mocked(),
        None,
        Some(mtls_identity("openshell-client")),
        true,
        false,
        false,
    );
    match call(&router, LIST_SANDBOXES, None, Ok(None)) {
        Ok(Some(Principal::User(u))) => {
            assert_eq!(u.identity.subject, "openshell-client");
            assert_eq!(u.identity.provider, IdentityProvider::Mtls);
        }
        _ => panic!("expected mTLS user principal"),
    }
}

#[test]
fn mtls_peer_identity_authenticates_without_chain_when_enabled() {
    let router = AuthGrpcRouter::with_peer_identity(
        (),
        None,
        None,
        Some(mtls_identity("openshell-client")),
        true,
        false,
        false,
    );
    assert!(matches!(
        call(&router, LIST_SANDBOXES, None, Ok(None)),
        Ok(Some(Principal::User(_)))
    ));
}

#[test]
fn mtls_auth_enabled_requires_peer_identity() {
    let router = AuthGrpcRouter::with_peer_identity((), None, None, None, true, false, false);
    assert_eq!(
        refused(call(&router, LIST_SANDBOXES, None, Ok(None))),
        Code::Unauthenticated
    );
}

#[test]
fn unauthenticated_dev_user_fills_missing_principal_when_enabled() {
    let router = AuthGrpcRouter::with_peer_identity((), mocked(), None, None, false, true, false);
    match call(&router, LIST_SANDBOXES, None, Ok(None)) {
        Ok(Some(Principal::User(u))) => {
            assert_eq!(u.identity.subject, "unauthenticated-local-dev");
            assert_eq!(u.identity.provider, IdentityProvider::LocalDev);
        }
        _ => panic!("expected dev user principal"),
    }
}

#[test]
fn unauthenticated_dev_user_authenticates_without_chain_when_enabled() {
    let router = AuthGrpcRouter::with_peer_identity((), None, None, None, false, true, false);
    assert!(matches!(
        call(&router, LIST_SANDBOXES, None, Ok(None)),
        Ok(Some(Principal::User(user))) if user.identity.subject == "unauthenticated-local-dev"
    ));
}

#[test]
fn user_principal_lands_in_request_extensions() {
    let router = AuthGrpcRouter::new((), mocked(), None);
    match call(&router, LIST_SANDBOXES, None, Ok(Some(user_principal("alice")))) {
        Ok(Some(Principal::User(u))) => assert_eq!(u.identity.subject, "alice"),
        _ => panic!("expected user principal"),
    }
}

#[test]
fn sandbox_principal_lands_in_request_extensions() {
    let router = AuthGrpcRouter::new((), mocked(), None);
    let path = "/openshell.v1.OpenShell/ReportPolicyStatus";
    match call(&router, path, None, Ok(Some(sandbox_principal()))) {
        Ok(Some(Principal::Sandbox(p))) => assert_eq!(p.sandbox_id, "sandbox-a"),
        _ => panic!("expected sandbox principal"),
    }
}

#[test]
fn sandbox_principal_can_call_allowlisted_method() {
    let router = AuthGrpcRouter::new((), mocked(), None);
    assert!(matches!(
        call(&router, GET_SANDBOX_CONFIG, None, Ok(Some(sandbox_principal()))),
        Ok(Some(Principal::Sandbox(_)))
    ));
}

fn exclusive_router() -> AuthGrpcRouter<()> {
    AuthGrpcRouter::with_peer_identity((), mocked(), None, None, false, false, true)
}

#[test]
fn exclusive_callback_accepts_only_sandbox_principals() {
    let callback = Some(GatewayListenerScope::ComputeDriverCallback);
    let router = exclusive_router();
    assert!(matches!(
        call(&router, GET_SANDBOX_CONFIG, callback, Ok(Some(sandbox_principal()))),
        Ok(Some(Principal::Sandbox(_)))
    ));
    let answer = call(&router, GET_SANDBOX_CONFIG, callback, Ok(Some(user_principal("alice"))));
    assert_eq!(refused(answer), Code::PermissionDenied);
}

#[test]
fn exclusive_primary_rejects_sandbox_and_accepts_user() {
    let primary = Some(GatewayListenerScope::Primary);
    let router = exclusive_router();
    let answer = call(&router, GET_SANDBOX_CONFIG, primary, Ok(Some(sandbox_principal())));
    assert_eq!(refused(answer), Code::PermissionDenied);
    assert!(matches!(
        call(&router, GET_SANDBOX_CONFIG, primary, Ok(Some(user_principal("alice")))),
        Ok(Some(Principal::User(_)))
    ));
}

#[test]
fn exclusive_callback_fails_closed_without_listener_scope() {
    let answer = call(
        &exclusive_router(),
        GET_SANDBOX_CONFIG,
        None,
        Ok(Some(sandbox_principal())),
    );
    assert_eq!(refused(answer), Code::PermissionDenied);
}

#[test]
fn sandbox_principal_can_fetch_inference_bundle() {
    let router = AuthGrpcRouter::new((), mocked(), None);
    let path = "/openshell.inference.v1.Inference/GetInferenceBundle";
    assert!(matches!(
        call(&router, path, None, Ok(Some(sandbox_principal()))),
        Ok(Some(Principal::Sandbox(_)))
    ));
}

#[test]
fn user_principal_is_denied_on_sandbox_only_methods() {
    let admin_user = || {
        Principal::User(UserPrincipal {
            identity: Identity {
                subject: "admin".to_string(),
                display_name: None,
                roles: vec!["openshell-admin".to_string()],
                scopes: vec!["openshell:all".to_string()],
                provider: IdentityProvider::Oidc,
            },
        })
    };
    for path in [
        "/openshell.v1.OpenShell/ReportPolicyStatus",
        "/openshell.v1.OpenShell/PushSandboxLogs",
        "/openshell.v1.OpenShell/SubmitPolicyAnalysis",
        "/openshell.v1.OpenShell/GetSandboxProviderEnvironment",
        "/openshell.v1.OpenShell/ConnectSupervisor",
        "/openshell.v1.OpenShell/RelayStream",
        "/openshell.v1.OpenShell/IssueSandboxToken",
        "/openshell.v1.OpenShell/RefreshSandboxToken",
        "/openshell.inference.v1.Inference/GetInferenceBundle",
    ] {
        let policy = AuthzPolicy {
            admin_role: "openshell-admin".to_string(),
            user_role: "openshell-user".to_string(),
            scopes_enabled: true,
        };
        let router = AuthGrpcRouter::new((), mocked(), Some(policy));
        let answer = call(&router, path, None, Ok(Some(admin_user())));
        assert_eq!(refused(answer), Code::PermissionDenied, "{path}");
    }
}

#[test]
fn sandbox_principal_is_denied_on_user_and_admin_methods() {
    for path in [
        "/openshell.v1.OpenShell/ListSandboxes",
        "/openshell.v1.OpenShell/DeleteSandbox",
        "/openshell.v1.OpenShell/CreateProvider",
        "/openshell.v1.OpenShell/ApproveDraftChunk",
        "/openshell.inference.v1.Inference/GetInferenceRoute",
        "/openshell.inference.v1.Inference/SetInferenceRoute",
    ] {
        let router = AuthGrpcRouter::new((), mocked(), None);
        let answer = call(&router, path, None, Ok(Some(sandbox_principal())));
        assert_eq!(refused(answer), Code::PermissionDenied, "{path}");
    }
}

#[test]
fn missing_principal_returns_unauthenticated() {
    let router = AuthGrpcRouter::new((), mocked(), None);
    assert_eq!(
        refused(call(&router, LIST_SANDBOXES, None, Ok(None))),
        Code::Unauthenticated
    );
}

#[test]
fn authenticator_error_short_circuits() {
    let router = AuthGrpcRouter::new((), mocked(), None);
    let forged = Status::new(Code::Unauthenticated, "forged");
    assert_eq!(
        refused(call(&router, LIST_SANDBOXES, None, Err(forged))),
        Code::Unauthenticated
    );
}

#[test]
fn health_methods_bypass_chain() {
    let router = AuthGrpcRouter::new((), mocked(), None);
    let access = table().find("/openshell.v1.OpenShell/Health");
    let (state, action) = router.step(access, None, AuthState::Arrived, request());
    assert!(matches!(action, AuthAction::Forward(None, _)), "health must not consult the chain");
    assert!(matches!(state, AuthState::Ended));
}

#[test]
fn the_policy_has_the_last_word_on_users() {
    let policy = AuthzPolicy {
        admin_role: "admin".to_string(),
        user_role: "user".to_string(),
        scopes_enabled: false,
    };
    let router = AuthGrpcRouter::new((), mocked(), Some(policy));
    let step = |state, event| router.step(USERS, None, state, event);
    let (state, action) = step(AuthState::Arrived, request());
    assert!(matches!(action, AuthAction::Authenticate));
    let (state, action) = step(state, AuthEvent::Checked(None));
    assert!(matches!(action, AuthAction::Nothing));
    let (state, action) = step(state, AuthEvent::Authenticated(Ok(Some(user_principal("alice")))));
    assert!(matches!(action, AuthAction::CheckPolicy));
    let objection = Status::new(Code::PermissionDenied, "role 'user' required");
    let (state, action) = step(state, AuthEvent::Checked(Some(objection)));
    assert!(matches!(
        action,
        AuthAction::Refuse(status) if status.message == "role 'user' required"
    ));
    assert!(matches!(state, AuthState::Ended));
}

fn served(
    service: &mut GrpcRateLimitService<()>,
    limiter: &mut Option<GrpcRateLimiter>,
    now: u128,
) -> &'static str {
    service.poll_ready(limiter, now);
    match service.call(limiter, now) {
        Some(status) if status.code == Code::ResourceExhausted => "8",
        Some(_) => panic!("another refusal"),
        None => "0",
    }
}

fn one_per_minute() -> Option<GrpcRateLimiter> {
    GrpcRateLimiter::from_config(Some((1, 60 * SECOND)), 0)
}

#[test]
fn grpc_rate_limit_poll_ready_short_circuits_exhausted_limiter() {
    let mut limiter = one_per_minute();
    assert!(limiter.as_mut().unwrap().allow(0));
    let mut exhausted = GrpcRateLimitService::new(());
    assert_eq!(exhausted.poll_ready(&mut limiter, 1), Readiness::RateLimited);
    assert_eq!(exhausted.call(&mut limiter, 1).unwrap().code, Code::ResourceExhausted);

    let mut with_capacity = GrpcRateLimitService::new(());
    assert_eq!(with_capacity.poll_ready(&mut one_per_minute(), 1), Readiness::AskInner);
}

#[test]
fn grpc_rate_limit_call_rejects_after_poll_ready_short_circuit_despite_window_rollover() {
    let mut limiter = one_per_minute();
    assert!(limiter.as_mut().unwrap().allow(0));
    let mut service = GrpcRateLimitService::new(());
    assert_eq!(service.poll_ready(&mut limiter, 1), Readiness::RateLimited);
    assert_eq!(service.call(&mut limiter, 61 * SECOND).unwrap().code, Code::ResourceExhausted);
}

#[test]
fn grpc_rate_limit_returns_resource_exhausted_after_limit() {
    let mut limiter = one_per_minute();
    let mut service = GrpcRateLimitService::new(());
    assert_eq!(served(&mut service, &mut limiter, 1), "0");
    assert_eq!(served(&mut service, &mut limiter, 2), "8");
}

#[test]
fn grpc_rate_limit_disabled_passes_requests_through() {
    let mut limiter = GrpcRateLimiter::from_config(None, 0);
    let mut service = GrpcRateLimitService::new(());
    for now in 0..3 {
        assert_eq!(served(&mut service, &mut limiter, now), "0");
    }
}

#[test]
fn grpc_rate_limit_resets_after_window() {
    let mut limiter = one_per_minute();
    let mut service = GrpcRateLimitService::new(());
    assert_eq!(served(&mut service, &mut limiter, 1), "0");
    assert_eq!(served(&mut service, &mut limiter, 61 * SECOND), "0");
}

#[test]
fn grpc_rate_limit_state_is_shared_across_service_clones() {
    let mut limiter = one_per_minute();
    let mut first_service = GrpcRateLimitService::new(());
    let mut second_service = first_service.clone();
    let first = served(&mut first_service, &mut limiter, 1);
    assert_eq!(first, "0");
    let second = served(&mut second_service, &mut limiter, 2);
    assert_eq!(second, "8");
    assert_eq!([first, second].into_iter().filter(|status| *status == "0").count(), 1);
}
