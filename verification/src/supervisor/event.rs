//! What the supervisor reports of its connections.

use vstd::prelude::*;
use crate::ip::{ip_of, ip_text, IpAddress};
use crate::text;
use crate::text::{all_together, decimal_of, first_at, last_at, trimmed, unsigned_value};

verus! {

/// What happened to a connection.
#[derive(Debug, Clone, Copy, PartialEq, Eq, Structural)]
pub enum ActivityId {
    Open,
    Close,
    Fail,
}

/// How grave it is.
#[derive(Debug, Clone, Copy, PartialEq, Eq, Structural)]
pub enum SeverityId {
    Informational,
    Low,
}

/// How it ended.
#[derive(Debug, Clone, Copy, PartialEq, Eq, Structural)]
pub enum StatusId {
    Success,
    Failure,
}

/// An end of a connection.
#[derive(Debug)]
pub struct Endpoint {
    pub domain: Option<String>,
    pub ip: Option<String>,
    pub port: Option<u16>,
}

/// What an end of a connection is.
pub enum EndpointView {
    Domain(Seq<char>, u16),
    Ip(Seq<char>, u16),
}

impl Endpoint {
    /// Whether this is the end that `view` tells of.
    pub open spec fn is(self, view: EndpointView) -> bool {
        match view {
            EndpointView::Domain(domain, port) => {
                &&& self.domain matches Some(d) && d@ == domain
                &&& self.ip is None
                &&& self.port == Some(port)
            },
            EndpointView::Ip(ip, port) => {
                &&& self.domain is None
                &&& self.ip matches Some(i) && i@ == ip
                &&& self.port == Some(port)
            },
        }
    }

    /// An end that is known by its domain.
    pub fn from_domain(domain: &str, port: u16) -> (endpoint: Self)
        ensures
            endpoint.is(EndpointView::Domain(domain@, port)),
    {
        Endpoint { domain: Some(domain.to_string()), ip: None, port: Some(port) }
    }

    /// An end that is known by its address.
    pub fn from_ip(ip: String, port: u16) -> (endpoint: Self)
        ensures
            endpoint.is(EndpointView::Ip(ip@, port)),
    {
        Endpoint { domain: None, ip: Some(ip), port: Some(port) }
    }
}

/// How a connection is made.
#[derive(Debug)]
pub struct ConnectionInfo {
    pub protocol_name: String,
}

/// A report on a connection.
#[derive(Debug)]
pub struct NetworkEvent {
    pub activity: ActivityId,
    pub severity: SeverityId,
    pub status: Option<StatusId>,
    pub dst_endpoint: Option<Endpoint>,
    pub connection_info: Option<ConnectionInfo>,
    pub message: String,
}

/// The place of the first `://` in `s`, or the length of `s` where there is none.
pub open spec fn scheme_end(s: Seq<char>) -> int
    decreases s.len(),
{
    if s.len() == 0 {
        0
    } else if s.len() > 2 && s[0] == ':' && s[1] == '/' && s[2] == '/' {
        0
    } else {
        1 + scheme_end(s.drop_first())
    }
}

/// What a URL gives behind its scheme, up to its path.
pub open spec fn authority(url: Seq<char>) -> Seq<char> {
    let at = scheme_end(url);
    let rest = if at < url.len() {
        url.skip(at + 3)
    } else {
        url
    };
    rest.take(first_at(rest, '/'))
}

/// The end of a connection to `endpoint`: the host and the port that it names, or all of it, and
/// port 0, where it names no port.
pub open spec fn gateway_end(endpoint: Seq<char>) -> EndpointView {
    let host_and_port = authority(endpoint);
    let at = last_at(host_and_port, ':');
    if at >= 0 {
        match unsigned_value(host_and_port.skip(at + 1)) {
            Some(port) if port <= u16::MAX => EndpointView::Domain(
                host_and_port.take(at),
                port as u16,
            ),
            _ => EndpointView::Domain(host_and_port, 0),
        }
    } else {
        EndpointView::Domain(host_and_port, 0)
    }
}

proof fn lemma_scheme_end(s: Seq<char>, n: int)
    requires
        0 <= n <= s.len(),
        forall|i: int|
            0 <= i < n && i + 2 < s.len() ==> !(#[trigger] s[i] == ':' && s[i + 1] == '/' && s[i + 2]
                == '/'),
        n < s.len() ==> n + 2 < s.len() && s[n] == ':' && s[n + 1] == '/' && s[n + 2] == '/',
    ensures
        scheme_end(s) == n,
    decreases s.len(),
{
    if n > 0 {
        let rest = s.drop_first();
        assert(!(s.len() > 2 && s[0] == ':' && s[1] == '/' && s[2] == '/'));
        assert forall|i: int| 0 <= i < n - 1 && i + 2 < rest.len() implies !(#[trigger] rest[i]
            == ':' && rest[i + 1] == '/' && rest[i + 2] == '/') by {
            assert(rest[i] == s[i + 1] && rest[i + 1] == s[i + 2] && rest[i + 2] == s[i + 3]);
        }
        if n < s.len() {
            assert(rest[n - 1] == s[n] && rest[n] == s[n + 1] && rest[n + 1] == s[n + 2]);
        }
        lemma_scheme_end(rest, n - 1);
    }
}

fn find_scheme_end(chars: &Vec<char>) -> (at: usize)
    ensures
        at == scheme_end(chars@),
        at <= chars@.len(),
        at < chars@.len() ==> at + 2 < chars@.len(),
{
    let n: usize = chars.len();
    let mut i: usize = 0;
    while i < n
        invariant
            i <= n,
            n == chars@.len(),
            forall|j: int|
                0 <= j < i && j + 2 < n ==> !(#[trigger] chars@[j] == ':' && chars@[j + 1] == '/'
                    && chars@[j + 2] == '/'),
        decreases n - i,
    {
        if n - i > 2 && chars[i] == ':' && chars[i + 1] == '/' && chars[i + 2] == '/' {
            proof {
                lemma_scheme_end(chars@, i as int);
            }
            return i;
        }
        i = i + 1;
    }
    proof {
        lemma_scheme_end(chars@, n as int);
    }
    n
}

/// The end of a connection to `endpoint`.
pub fn ocsf_gateway_endpoint(endpoint: &str) -> (end: Endpoint)
    ensures
        end.is(gateway_end(endpoint@)),
{
    let chars = text::chars_of(endpoint);
    let at: usize = find_scheme_end(&chars);
    let from: usize = if at < chars.len() {
        at + 3
    } else {
        0
    };
    let rest = text::text_of(&chars, from, chars.len());
    proof {
        if at < chars@.len() {
            assert(rest@ =~= endpoint@.skip(at + 3));
        } else {
            assert(rest@ =~= endpoint@);
        }
    }
    let host_and_port = match text::split_once(rest.as_str(), '/') {
        Some((before, _)) => before.to_string(),
        None => {
            proof {
                text::lemma_first_at_bounds(rest@, '/');
                assert(rest@.take(rest@.len() as int) =~= rest@);
            }
            rest
        },
    };
    assert(host_and_port@ == authority(endpoint@));
    if let Some((host, port)) = text::rsplit_once(host_and_port.as_str(), ':') {
        if let Some(port) = text::parse_u16(port) {
            return Endpoint::from_domain(host, port);
        }
    }
    Endpoint::from_domain(host_and_port.as_str(), 0)
}

/// The report that a session was established.
pub fn session_established_event(endpoint: &str, session_id: &str, heartbeat_secs: u32) -> (event:
    NetworkEvent)
    ensures
        event.activity == ActivityId::Open,
        event.severity == SeverityId::Informational,
        event.status == Some(StatusId::Success),
        event.dst_endpoint matches Some(end) && end.is(gateway_end(endpoint@)),
        event.connection_info is None,
        event.message@ == "supervisor session established (session_id="@ + session_id@
            + ", heartbeat_secs="@ + decimal_of(heartbeat_secs as nat) + ")"@,
{
    let mut message = all_together(
        "supervisor session established (session_id=",
        session_id,
        ", heartbeat_secs=",
    );
    message.append(text::decimal(heartbeat_secs as u64).as_str());
    message.append(")");
    NetworkEvent {
        activity: ActivityId::Open,
        severity: SeverityId::Informational,
        status: Some(StatusId::Success),
        dst_endpoint: Some(ocsf_gateway_endpoint(endpoint)),
        connection_info: None,
        message,
    }
}

/// Whether `event` reports that the session of a sandbox ended in order.
pub open spec fn reports_closed(
    event: NetworkEvent,
    endpoint: Seq<char>,
    sandbox_id: Seq<char>,
) -> bool {
    &&& event.activity == ActivityId::Close
    &&& event.severity == SeverityId::Informational
    &&& event.status == Some(StatusId::Success)
    &&& event.dst_endpoint matches Some(end) && end.is(gateway_end(endpoint))
    &&& event.connection_info is None
    &&& event.message@ == "supervisor session ended cleanly ("@ + sandbox_id + ")"@
}

/// The report that a session ended in order.
pub fn session_closed_event(endpoint: &str, sandbox_id: &str) -> (event: NetworkEvent)
    ensures
        reports_closed(event, endpoint@, sandbox_id@),
{
    NetworkEvent {
        activity: ActivityId::Close,
        severity: SeverityId::Informational,
        status: Some(StatusId::Success),
        dst_endpoint: Some(ocsf_gateway_endpoint(endpoint)),
        connection_info: None,
        message: all_together("supervisor session ended cleanly (", sandbox_id, ")"),
    }
}

/// Whether `event` reports that a session failed and will be tried again.
pub open spec fn reports_failed(
    event: NetworkEvent,
    endpoint: Seq<char>,
    attempt: u64,
    error: Seq<char>,
) -> bool {
    &&& event.activity == ActivityId::Fail
    &&& event.severity == SeverityId::Low
    &&& event.status == Some(StatusId::Failure)
    &&& event.dst_endpoint matches Some(end) && end.is(gateway_end(endpoint))
    &&& event.connection_info is None
    &&& event.message@ == "supervisor session failed, reconnecting (attempt "@ + decimal_of(
        attempt as nat,
    ) + "): "@ + error
}

/// The report that a session failed and will be tried again.
pub fn session_failed_event(endpoint: &str, attempt: u64, error: &str) -> (event: NetworkEvent)
    ensures
        reports_failed(event, endpoint@, attempt, error@),
{
    let mut message = all_together(
        "supervisor session failed, reconnecting (attempt ",
        text::decimal(attempt).as_str(),
        "): ",
    );
    message.append(error);
    NetworkEvent {
        activity: ActivityId::Fail,
        severity: SeverityId::Low,
        status: Some(StatusId::Failure),
        dst_endpoint: Some(ocsf_gateway_endpoint(endpoint)),
        connection_info: None,
        message,
    }
}

/// The end of a connection to a host: by its address, where the host is one.
pub open spec fn host_end(host: Seq<char>, port: u16) -> EndpointView {
    match ip_of(trimmed(host)) {
        Some(address) => EndpointView::Ip(ip_text(address), port),
        None => EndpointView::Domain(trimmed(host), port),
    }
}

/// The end of a connection to a host.
pub fn host_endpoint(host: &str, port: u16) -> (end: Endpoint)
    ensures
        end.is(host_end(host@, port)),
{
    let host = text::trim(host);
    match IpAddress::parse(host) {
        Some(address) => Endpoint::from_ip(address.describe(), port),
        None => Endpoint::from_domain(host, port),
    }
}

/// The end of a connection to a URL is the host and the port between its scheme and its path.
pub proof fn lemma_url_names_its_end(
    scheme: Seq<char>,
    host: Seq<char>,
    port: u16,
    path: Seq<char>,
)
    requires
        !scheme.contains(':'),
        !host.contains('/'),
        path.len() > 0 ==> path[0] == '/',
    ensures
        gateway_end(scheme + seq![':', '/', '/'] + host + seq![':'] + decimal_of(port as nat) + path)
            == EndpointView::Domain(host, port),
{
    let number = decimal_of(port as nat);
    let url = scheme + seq![':', '/', '/'] + host + seq![':'] + number + path;
    let n = scheme.len() as int;
    text::lemma_decimal_digits(port as nat);
    text::lemma_decimal_not_empty(port as nat);
    assert(url[n] == ':' && url[n + 1] == '/' && url[n + 2] == '/');
    assert forall|i: int| 0 <= i < n && i + 2 < url.len() implies !(#[trigger] url[i] == ':'
        && url[i + 1] == '/' && url[i + 2] == '/') by {
        assert(url[i] == scheme[i]);
        assert(scheme.contains(scheme[i]));
    }
    lemma_scheme_end(url, n);
    let rest = url.skip(n + 3);
    let end = host + seq![':'] + number;
    assert(rest =~= end + path);
    let m = end.len() as int;
    assert forall|i: int| 0 <= i < m implies rest[i] != '/' by {
        if i < host.len() {
            assert(rest[i] == host[i]);
            assert(host.contains(host[i]));
        } else if i > host.len() {
            let k = i - host.len() - 1;
            assert(rest[i] == number[k]);
        }
    }
    text::lemma_first_at(rest, '/', m);
    assert(rest.take(m) =~= end);
    let at = host.len() as int;
    assert forall|i: int| at < i < m implies end[i] != ':' by {
        let k = i - at - 1;
        assert(end[i] == number[k]);
    }
    text::lemma_last_at(end, ':', at);
    assert(end.skip(at + 1) =~= number);
    assert(end.take(at) =~= host);
}

/// What is reported of a session's end says how it ended: in order, or failed and how often.
pub proof fn lemma_session_ends_are_reported(
    event: NetworkEvent,
    endpoint: Seq<char>,
    sandbox_id: Seq<char>,
    attempt: u64,
    error: Seq<char>,
)
    ensures
        reports_closed(event, endpoint, sandbox_id) ==> event.activity == ActivityId::Close
            && event.severity == SeverityId::Informational && event.status == Some(
            StatusId::Success,
        ) && event.message@ == "supervisor session ended cleanly ("@ + sandbox_id + ")"@ && (
        event.dst_endpoint matches Some(end) && end.is(gateway_end(endpoint))),
        reports_failed(event, endpoint, attempt, error) ==> event.activity == ActivityId::Fail
            && event.severity == SeverityId::Low && event.status == Some(StatusId::Failure)
            && event.message@ == "supervisor session failed, reconnecting (attempt "@ + decimal_of(
            attempt as nat,
        ) + "): "@ + error && (event.dst_endpoint matches Some(end) && end.is(
            gateway_end(endpoint),
        )),
{
}

/// The end of a connection is named by its port, and by its address where the host is one, in the
/// form in which addresses are written; otherwise by the name of the host, without the white space
/// around it.
pub proof fn lemma_hosts_are_named_as_they_are(host: Seq<char>, port: u16)
    ensures
        ip_of(trimmed(host)) matches Some(address) ==> host_end(host, port) == EndpointView::Ip(
            ip_text(address),
            port,
        ),
        ip_of(trimmed(host)) is None ==> host_end(host, port) == EndpointView::Domain(
            trimmed(host),
            port,
        ),
{
}

} // verus!
