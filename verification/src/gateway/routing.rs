//! Where requests go: by listener, protocol and path.

use vstd::prelude::*;
use http::{HeaderMap, HeaderValue};
use crate::gateway::headers::{header_text, request_id};
use crate::gateway::status::{Code, Status};
use crate::text;
use crate::text::{all_together, last_at, pieces, texts};

verus! {

/// Which listener a request came in on.
#[derive(Debug, Clone, Copy, PartialEq, Eq, Structural)]
pub enum GatewayListenerScope {
    Primary,
    ComputeDriverCallback,
}

/// Who may call a method.
#[derive(Debug, Clone, Copy, PartialEq, Eq, Structural)]
pub struct MethodAccess {
    /// Whether it needs no authentication.
    pub anyone: bool,
    /// Whether users may call it.
    pub users: bool,
    /// Whether sandboxes may call it.
    pub sandboxes: bool,
}

/// Who may call the method at a path.
#[derive(Debug)]
pub struct RpcAuth {
    pub path: String,
    pub access: MethodAccess,
}

/// Who may call which method.
#[derive(Debug)]
pub struct RpcAuthTable {
    pub methods: Vec<RpcAuth>,
    /// Who may call the methods that are not listed.
    pub unlisted: MethodAccess,
}

/// Who may call the first method at `path`.
pub open spec fn listed_access(methods: Seq<RpcAuth>, path: Seq<char>) -> Option<MethodAccess>
    decreases methods.len(),
{
    if methods.len() == 0 {
        None
    } else if methods[0].path@ == path {
        Some(methods[0].access)
    } else {
        listed_access(methods.drop_first(), path)
    }
}

impl RpcAuthTable {
    /// Who may call the method at `path`.
    pub open spec fn access(self, path: Seq<char>) -> MethodAccess {
        match listed_access(self.methods@, path) {
            Some(access) => access,
            None => self.unlisted,
        }
    }

    /// Who may call the method at `path`.
    pub fn find(&self, path: &str) -> (access: MethodAccess)
        ensures
            access == self.access(path@),
    {
        let n: usize = self.methods.len();
        let mut i: usize = 0;
        assert(self.methods@.skip(0) =~= self.methods@);
        while i < n
            invariant
                i <= n,
                n == self.methods@.len(),
                listed_access(self.methods@.skip(i as int), path@) == listed_access(
                    self.methods@,
                    path@,
                ),
            decreases n - i,
        {
            assert(self.methods@.skip(i as int)[0] == self.methods@[i as int]);
            assert(self.methods@.skip(i as int).drop_first() =~= self.methods@.skip(i as int + 1));
            if text::same(self.methods[i].path.as_str(), path) {
                return self.methods[i].access;
            }
            i = i + 1;
        }
        self.unlisted
    }

    /// Whether sandboxes may call the method at `path`.
    pub fn is_sandbox_callable(&self, path: &str) -> (yes: bool)
        ensures
            yes == self.access(path@).sandboxes,
    {
        self.find(path).sandboxes
    }
}

/// Whether a listener takes a request: a callback listener takes remote procedure calls of
/// sandboxes only.
pub open spec fn listener_takes(
    scope: Option<GatewayListenerScope>,
    is_grpc: bool,
    path: Seq<char>,
    table: RpcAuthTable,
) -> bool {
    scope == Some(GatewayListenerScope::ComputeDriverCallback) ==> is_grpc && table.access(path).sandboxes
}

/// Whether a listener takes a request.
pub fn listener_allows_request(
    listener_scope: Option<GatewayListenerScope>,
    is_grpc: bool,
    path: &str,
    table: &RpcAuthTable,
) -> (yes: bool)
    ensures
        yes == listener_takes(listener_scope, is_grpc, path@, *table),
{
    match listener_scope {
        Some(GatewayListenerScope::ComputeDriverCallback) => is_grpc && table.is_sandbox_callable(
            path,
        ),
        Some(GatewayListenerScope::Primary) | None => true,
    }
}

/// How a request is refused.
#[derive(Debug)]
pub enum Rejection {
    /// With the status of a remote procedure call.
    Grpc(Status),
    /// With an HTTP status and a text.
    Http { status: u16, body: String },
}

impl Rejection {
    /// Whether this is how a callback listener refuses a request, in the protocol of the request.
    pub open spec fn of_callback_listener(self, is_grpc: bool) -> bool {
        match self {
            Rejection::Grpc(status) => is_grpc && status.is(
                Code::PermissionDenied,
                "compute-driver callback listeners accept sandbox callback RPCs only"@,
            ),
            Rejection::Http { status, body } => !is_grpc && status == 403 && body@
                == "compute-driver callback listeners accept gRPC callbacks only"@,
        }
    }
}

/// Refuses a request on a callback listener, in the protocol of the request.
pub fn callback_listener_rejection(is_grpc: bool) -> (rejection: Rejection)
    ensures
        rejection.of_callback_listener(is_grpc),
{
    if is_grpc {
        Rejection::Grpc(
            Status::new(
                Code::PermissionDenied,
                "compute-driver callback listeners accept sandbox callback RPCs only",
            ),
        )
    } else {
        Rejection::Http {
            status: 403,
            body: "compute-driver callback listeners accept gRPC callbacks only".to_string(),
        }
    }
}

/// The path of a request behind its last slash.
pub open spec fn method_segment(path: Seq<char>) -> Seq<char> {
    path.skip(last_at(path, '/') + 1)
}

/// The name of the method in the path of a remote procedure call.
pub fn grpc_method_from_path(path: &str) -> (method: String)
    ensures
        method@ == method_segment(path@),
{
    match text::rsplit_once(path, '/') {
        Some((_, method)) => method.to_string(),
        None => {
            assert(path@.skip(0) =~= path@);
            path.to_string()
        },
    }
}

/// The service and the method of a remote procedure call: its path is a slash, the service with
/// a dot in its name, a slash, and the method.
pub open spec fn rpc_parts(path: Seq<char>) -> Option<(Seq<char>, Seq<char>)> {
    if path.len() > 0 && path[0] == '/' {
        let segments = pieces(path.drop_first(), '/');
        if segments.len() == 2 && segments[0].contains('.') && segments[1].len() > 0 {
            Some((segments[0], segments[1]))
        } else {
            None
        }
    } else {
        None
    }
}

/// Splits the path of a remote procedure call into service and method; anything else is plain
/// HTTP.
pub fn grpc_service_method(path: &str) -> (parts: Option<(String, String)>)
    ensures
        parts is Some <==> rpc_parts(path@) is Some,
        parts matches Some(p) ==> rpc_parts(path@) == Some((p.0@, p.1@)),
{
    let n: usize = path.unicode_len();
    if n == 0 || path.get_char(0) != '/' {
        return None;
    }
    let rest = path.substring_char(1, n);
    assert(rest@ =~= path@.drop_first());
    let segments = text::split(rest, '/');
    assert(texts(segments@).len() == segments@.len());
    if segments.len() != 2 {
        return None;
    }
    assert(texts(segments@)[0] == segments@[0]@);
    assert(texts(segments@)[1] == segments@[1]@);
    if !text::contains_char(segments[0].as_str(), '.') || segments[1].as_str().is_empty() {
        return None;
    }
    Some((segments[0].clone(), segments[1].clone()))
}

/// The name under which a request is traced: service and method of a remote procedure call, else
/// the HTTP method alone, since paths of proxied applications would make endless names.
pub open spec fn span_name(method: Seq<char>, path: Seq<char>) -> Seq<char> {
    match rpc_parts(path) {
        Some((service, rpc)) => service + "/"@ + rpc,
        None => method,
    }
}

/// The name under which a request is traced.
pub fn otel_span_name(method: &str, path: &str) -> (name: String)
    ensures
        name@ == span_name(method@, path@),
{
    match grpc_service_method(path) {
        Some((service, rpc)) => all_together(service.as_str(), "/", rpc.as_str()),
        None => method.to_string(),
    }
}

/// The label under which requests for a path are counted.
pub open spec fn path_label(path: Seq<char>) -> Seq<char> {
    if "/_ws_tunnel"@.is_prefix_of(path) {
        "/_ws_tunnel"@
    } else if "/auth/"@.is_prefix_of(path) {
        "/auth"@
    } else {
        "unknown"@
    }
}

/// The label under which requests for a path are counted.
pub fn normalize_http_path(path: &str) -> (label: &'static str)
    ensures
        label@ == path_label(path@),
{
    if text::starts_with(path, "/_ws_tunnel") {
        "/_ws_tunnel"
    } else if text::starts_with(path, "/auth/") {
        "/auth"
    } else {
        "unknown"
    }
}

/// What is traced of a request.
#[derive(Debug)]
pub struct RequestSpan {
    /// Whether the request is a probe, which is traced for debugging only.
    pub probe: bool,
    pub method: String,
    pub path: String,
    pub request_id: String,
    pub otel_name: String,
    /// The service and the method of a remote procedure call.
    pub rpc: Option<(String, String)>,
}

/// Whether `path` is that of a probe.
pub open spec fn probe_path(path: Seq<char>) -> bool {
    path == "/health"@ || path == "/healthz"@ || path == "/readyz"@
}

/// What is traced of a request.
pub fn make_request_span(method: &str, path: &str, headers: &HeaderMap<HeaderValue>) -> (span:
    RequestSpan)
    ensures
        span.probe == probe_path(path@),
        span.method@ == method@,
        span.path@ == path@,
        span.request_id@ == match header_text(*headers, "x-request-id"@) {
            Some(id) => id,
            None => "-"@,
        },
        span.otel_name@ == span_name(method@, path@),
        span.rpc is Some <==> !probe_path(path@) && rpc_parts(path@) is Some,
        span.rpc matches Some(p) ==> rpc_parts(path@) == Some((p.0@, p.1@)),
{
    let id = match request_id(headers) {
        Some(id) => id,
        None => "-".to_string(),
    };
    let probe = text::same(path, "/health") || text::same(path, "/healthz") || text::same(
        path,
        "/readyz",
    );
    let rpc = if probe {
        None
    } else {
        grpc_service_method(path)
    };
    RequestSpan {
        probe,
        method: method.to_string(),
        path: path.to_string(),
        request_id: id,
        otel_name: otel_span_name(method, path),
        rpc,
    }
}

/// The small hexadecimal digits.
pub open spec fn small_hex(c: char) -> bool {
    0x30 <= c as u32 <= 0x39 || 0x61 <= c as u32 <= 0x66
}

/// Whether a text is a random UUID in its hyphenated form.
pub open spec fn random_uuid(s: Seq<char>) -> bool {
    &&& s.len() == 36
    &&& s[8] == '-' && s[13] == '-' && s[18] == '-' && s[23] == '-'
    &&& s[14] == '4'
    &&& (s[19] == '8' || s[19] == '9' || s[19] == 'a' || s[19] == 'b')
    &&& forall|i: int|
        0 <= i < 36 && i != 8 && i != 13 && i != 18 && i != 23 ==> small_hex(#[trigger] s[i])
}

/// `Uuid::new_v4` of the `uuid` crate, in its hyphenated form: thirty-two hexadecimal digits in
/// five groups, with the version and the variant of a random UUID in their places.
#[verifier::external_body]
fn new_uuid() -> (s: String)
    ensures
        random_uuid(s@),
{
    uuid::Uuid::new_v4().to_string()
}

/// A new identifier for a request.
pub fn make_request_id() -> (id: String)
    ensures
        random_uuid(id@),
{
    new_uuid()
}

/// Adds the listener's scope to every request that it takes.
pub struct GatewayListenerContextService<S> {
    pub inner: S,
    pub listener_scope: GatewayListenerScope,
}

impl<S> GatewayListenerContextService<S> {
    pub fn new(inner: S, listener_scope: GatewayListenerScope) -> (service: Self)
        ensures
            service == (GatewayListenerContextService { inner, listener_scope }),
    {
        GatewayListenerContextService { inner, listener_scope }
    }
}

/// Routes remote procedure calls between two services by their path.
pub struct GrpcRouter<N, I> {
    pub openshell: N,
    pub inference: I,
}

/// Where a remote procedure call goes.
#[derive(Debug, Clone, Copy, PartialEq, Eq, Structural)]
pub enum GrpcRoute {
    OpenShell,
    Inference,
}

/// Where the call at `path` goes: to inference where the path begins with that service's name.
pub open spec fn grpc_route(path: Seq<char>) -> GrpcRoute {
    if "/openshell.inference.v1.Inference/"@.is_prefix_of(path) {
        GrpcRoute::Inference
    } else {
        GrpcRoute::OpenShell
    }
}

impl<N, I> GrpcRouter<N, I> {
    pub fn new(openshell: N, inference: I) -> (router: Self)
        ensures
            router == (GrpcRouter { openshell, inference }),
    {
        GrpcRouter { openshell, inference }
    }

    /// Where the call at `path` goes.
    pub fn route(&self, path: &str) -> (route: GrpcRoute)
        ensures
            route == grpc_route(path@),
    {
        if text::starts_with(path, "/openshell.inference.v1.Inference/") {
            GrpcRoute::Inference
        } else {
            GrpcRoute::OpenShell
        }
    }
}

/// Splits requests between remote procedure calls and plain HTTP.
pub struct MultiplexedService<G, H> {
    pub grpc: G,
    pub http: H,
}

/// Where a request goes, with the label under which it is counted.
#[derive(Debug)]
pub enum Route {
    Refuse(Rejection),
    Grpc { method: String },
    Http { path: &'static str },
}

/// Where a request goes that a listener gets.
pub open spec fn routes(
    listener_scope: Option<GatewayListenerScope>,
    is_grpc: bool,
    path: Seq<char>,
    table: RpcAuthTable,
    route: Route,
) -> bool {
    match route {
        Route::Refuse(rejection) => {
            &&& !listener_takes(listener_scope, is_grpc, path, table)
            &&& rejection.of_callback_listener(is_grpc)
        },
        Route::Grpc { method } => {
            &&& listener_takes(listener_scope, is_grpc, path, table)
            &&& is_grpc
            &&& method@ == method_segment(path)
        },
        Route::Http { path: label } => {
            &&& listener_takes(listener_scope, is_grpc, path, table)
            &&& !is_grpc
            &&& label@ == path_label(path)
        },
    }
}

impl<G, H> MultiplexedService<G, H> {
    /// The service made of one for remote procedure calls and one for plain HTTP.
    pub fn new(grpc: G, http: H) -> (service: Self)
        ensures
            service == (MultiplexedService { grpc, http }),
    {
        MultiplexedService { grpc, http }
    }

    /// Where a request goes.
    pub fn route(
        &self,
        listener_scope: Option<GatewayListenerScope>,
        is_grpc: bool,
        path: &str,
        table: &RpcAuthTable,
    ) -> (route: Route)
        ensures
            routes(listener_scope, is_grpc, path@, *table, route),
    {
        if !listener_allows_request(listener_scope, is_grpc, path, table) {
            return Route::Refuse(callback_listener_rejection(is_grpc));
        }
        if is_grpc {
            Route::Grpc { method: grpc_method_from_path(path) }
        } else {
            Route::Http { path: normalize_http_path(path) }
        }
    }
}

/// The service of a gateway, over its state.
pub struct MultiplexService<T> {
    pub state: T,
}

impl<T> MultiplexService<T> {
    /// The service over the given state.
    pub fn new(state: T) -> (service: Self)
        ensures
            service == (MultiplexService { state }),
    {
        MultiplexService { state }
    }
}

/// A callback listener takes no plain HTTP and no call that sandboxes may not make; the primary
/// listener takes everything.
pub proof fn lemma_callback_listener_is_for_sandboxes(
    is_grpc: bool,
    path: Seq<char>,
    table: RpcAuthTable,
)
    ensures
        listener_takes(Some(GatewayListenerScope::ComputeDriverCallback), is_grpc, path, table)
            <==> is_grpc && table.access(path).sandboxes,
        listener_takes(Some(GatewayListenerScope::Primary), is_grpc, path, table),
        listener_takes(None, is_grpc, path, table),
{
}

/// The name under which a plain request is traced does not depend on its path.
pub proof fn lemma_http_span_names_ignore_the_path(method: Seq<char>, a: Seq<char>, b: Seq<char>)
    requires
        rpc_parts(a) is None,
        rpc_parts(b) is None,
    ensures
        span_name(method, a) == span_name(method, b),
        span_name(method, a) == method,
{
}

proof fn lemma_listed_first(methods: Seq<RpcAuth>, path: Seq<char>, i: int)
    requires
        0 <= i < methods.len(),
        methods[i].path@ == path,
        forall|j: int| 0 <= j < i ==> (#[trigger] methods[j]).path@ != path,
    ensures
        listed_access(methods, path) == Some(methods[i].access),
    decreases methods.len(),
{
    if i > 0 {
        assert(methods[0].path@ != path);
        assert(methods.drop_first()[i - 1] == methods[i]);
        assert forall|j: int| 0 <= j < i - 1 implies (#[trigger] methods.drop_first()[j]).path@
            != path by {
            assert(methods.drop_first()[j] == methods[j + 1]);
        }
        lemma_listed_first(methods.drop_first(), path, i - 1);
    }
}

proof fn lemma_unlisted(methods: Seq<RpcAuth>, path: Seq<char>)
    requires
        forall|j: int| 0 <= j < methods.len() ==> (#[trigger] methods[j]).path@ != path,
    ensures
        listed_access(methods, path) is None,
    decreases methods.len(),
{
    if methods.len() > 0 {
        assert(methods[0].path@ != path);
        assert forall|j: int| 0 <= j < methods.len() - 1 implies (
        #[trigger] methods.drop_first()[j]).path@ != path by {
            assert(methods.drop_first()[j] == methods[j + 1]);
        }
        lemma_unlisted(methods.drop_first(), path);
    }
}

/// Who may call a method is what the first entry for its path says, and for a path without an
/// entry what the table says of those.
pub proof fn lemma_access_is_by_the_first_entry(table: RpcAuthTable, path: Seq<char>, i: int)
    ensures
        0 <= i < table.methods@.len() && table.methods@[i].path@ == path && (forall|j: int|
            0 <= j < i ==> (#[trigger] table.methods@[j]).path@ != path) ==> table.access(path)
            == table.methods@[i].access,
        (forall|j: int| 0 <= j < table.methods@.len() ==> (#[trigger] table.methods@[j]).path@ != path)
            ==> table.access(path) == table.unlisted,
{
    if 0 <= i < table.methods@.len() && table.methods@[i].path@ == path && (forall|j: int|
        0 <= j < i ==> (#[trigger] table.methods@[j]).path@ != path) {
        lemma_listed_first(table.methods@, path, i);
    }
    if forall|j: int| 0 <= j < table.methods@.len() ==> (#[trigger] table.methods@[j]).path@ != path {
        lemma_unlisted(table.methods@, path);
    }
}

/// The method of a path is what stands behind its last slash, and all of it where it has none.
pub proof fn lemma_method_is_behind_the_last_slash(before: Seq<char>, method: Seq<char>)
    requires
        !method.contains('/'),
    ensures
        method_segment(before + seq!['/'] + method) == method,
        method_segment(method) == method,
{
    let path = before + seq!['/'] + method;
    let n = before.len() as int;
    assert forall|i: int| n < i < path.len() implies #[trigger] path[i] != '/' by {
        assert(path[i] == method[i - n - 1]);
        assert(method.contains(method[i - n - 1]));
    }
    text::lemma_last_at(path, '/', n);
    assert(path.skip(n + 1) =~= method);
    assert forall|i: int| -1 < i < method.len() implies #[trigger] method[i] != '/' by {
        assert(method.contains(method[i]));
    }
    text::lemma_last_at(method, '/', -1);
    assert(method.skip(0) =~= method);
}

/// The path of a remote procedure call, a slash, a service with a dot in its name, a slash and a
/// method, comes apart into the two, and is traced under both of them; a path with more or fewer
/// parts is plain HTTP, and traced under its HTTP method.
pub proof fn lemma_calls_come_apart(http: Seq<char>, service: Seq<char>, method: Seq<char>)
    requires
        !service.contains('/'),
        !method.contains('/'),
    ensures
        ({
            let path = seq!['/'] + service + seq!['/'] + method;
            &&& service.contains('.') && method.len() > 0 ==> rpc_parts(path) == Some(
                (service, method),
            ) && span_name(http, path) == service + "/"@ + method
            &&& !service.contains('.') || method.len() == 0 ==> rpc_parts(path) is None
                && span_name(http, path) == http
        }),
{
    let path = seq!['/'] + service + seq!['/'] + method;
    let rest = path.drop_first();
    assert(rest =~= service + seq!['/'] + method);
    let parts = seq![service, method];
    assert forall|i: int| 0 <= i < parts.len() implies text::free_of(#[trigger] parts[i], '/') by {
        assert forall|k: int| 0 <= k < parts[i].len() implies #[trigger] parts[i][k] != '/' by {
            assert(parts[i].contains(parts[i][k]));
        }
    }
    text::lemma_pieces_joined(parts, '/');
    reveal_with_fuel(text::joined, 3);
    assert(parts.drop_last() =~= seq![service]);
    assert(text::joined(parts, seq!['/']) =~= rest);
    assert(text::pieces(rest, '/') =~= parts);
}

/// Calls of the inference service go to it, and every other call goes to the gateway's own.
pub proof fn lemma_inference_is_routed_by_its_name(rest: Seq<char>, path: Seq<char>)
    ensures
        grpc_route("/openshell.inference.v1.Inference/"@ + rest) == GrpcRoute::Inference,
        grpc_route(path) == GrpcRoute::Inference ==> path.len() >= 34 && path.take(34)
            == "/openshell.inference.v1.Inference/"@,
        grpc_route(path) == GrpcRoute::OpenShell || grpc_route(path) == GrpcRoute::Inference,
{
    reveal_strlit("/openshell.inference.v1.Inference/");
    let name = "/openshell.inference.v1.Inference/"@;
    assert(name.is_prefix_of(name + rest)) by {
        assert((name + rest).take(name.len() as int) =~= name);
    }
    if grpc_route(path) == GrpcRoute::Inference {
        assert(path.take(34) =~= name);
    }
}

/// Requests are counted under a label that does not grow with their paths: that of the tunnel,
/// that of the authentication pages, or that of anything else.
pub proof fn lemma_labels_are_few(path: Seq<char>)
    ensures
        "/_ws_tunnel"@.is_prefix_of(path) ==> path_label(path) == "/_ws_tunnel"@,
        "/auth/"@.is_prefix_of(path) ==> path_label(path) == "/auth"@,
        !"/_ws_tunnel"@.is_prefix_of(path) && !"/auth/"@.is_prefix_of(path) ==> path_label(path)
            == "unknown"@,
{
    reveal_strlit("/_ws_tunnel");
    reveal_strlit("/auth/");
    if "/_ws_tunnel"@.is_prefix_of(path) && "/auth/"@.is_prefix_of(path) {
        assert("/_ws_tunnel"@[1] == path[1] && "/auth/"@[1] == path[1]);
    }
}

/// What a callback listener refuses is answered in the protocol of the request: a call with a
/// status, plain HTTP with 403.
pub proof fn lemma_refusals_keep_the_protocol(rejection: Rejection, is_grpc: bool)
    requires
        rejection.of_callback_listener(is_grpc),
    ensures
        is_grpc ==> (rejection matches Rejection::Grpc(status) && status.code
            == Code::PermissionDenied && status.message@
            == "compute-driver callback listeners accept sandbox callback RPCs only"@),
        !is_grpc ==> (rejection matches Rejection::Http { status, body } && status == 403 && body@
            == "compute-driver callback listeners accept gRPC callbacks only"@),
{
}

/// Health probes are recognized by their three paths.
pub proof fn lemma_probes(path: Seq<char>)
    ensures
        probe_path(path) <==> path == "/health"@ || path == "/healthz"@ || path == "/readyz"@,
{
}

/// A request goes where its protocol says: a remote procedure call to the one service, and any
/// other to the other. Only a listener for the callbacks of compute drivers refuses, and it
/// refuses all but the remote procedure calls that sandboxes may make.
pub proof fn lemma_requests_go_by_their_protocol(
    scope: Option<GatewayListenerScope>,
    is_grpc: bool,
    path: Seq<char>,
    table: RpcAuthTable,
    route: Route,
)
    requires
        routes(scope, is_grpc, path, table, route),
    ensures
        route is Refuse <==> scope == Some(GatewayListenerScope::ComputeDriverCallback) && (!is_grpc
            || !table.access(path).sandboxes),
        route is Grpc ==> is_grpc,
        route is Http ==> !is_grpc,
        route matches Route::Refuse(rejection) ==> (is_grpc <==> rejection is Grpc),
{
}

} // verus!
