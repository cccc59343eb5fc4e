//! Relays: which local service a relay reaches, and what is carried over it.

use vstd::prelude::*;
use crate::ip::{
    ip_of, ip_text, lemma_read_address_is_whole, lemma_text_is_read_back, loopback, IpAddress, IpView,
};
use crate::supervisor::event;
use crate::supervisor::event::{
    host_end, ActivityId, ConnectionInfo, Endpoint, EndpointView, NetworkEvent, SeverityId,
    StatusId,
};
use crate::text;
use crate::text::{all_together, decimal_of, lowered, together, trimmed};

verus! {

/// Where the attestation service listens.
pub const ATTESTATION_SERVICE_PORT: u16 = 8006;

/// The largest piece that is read from a local service at once.
pub const RELAY_CHUNK_SIZE: usize = 16384;

/// A host and a port that a relay is asked to reach.
#[derive(Debug)]
pub struct TcpRelayTarget {
    pub host: String,
    pub port: u32,
}

/// What a relay is asked to reach.
#[derive(Debug)]
pub enum RelayTarget {
    Tcp(TcpRelayTarget),
    AttestationService,
    Ssh,
}

/// The gateway's request to open a relay. Without a target it is for SSH.
#[derive(Debug)]
pub struct RelayOpen {
    pub channel_id: String,
    pub target: Option<RelayTarget>,
    pub service_id: String,
}

/// Where the attestation service is dialled: on this machine, in the supervisor's own network.
pub fn attestation_service_dial_target() -> (target: (&'static str, u16, Option<i32>))
    ensures
        target.0@ == "127.0.0.1"@,
        target.1 == ATTESTATION_SERVICE_PORT,
        target.2 is None,
{
    ("127.0.0.1", ATTESTATION_SERVICE_PORT, None)
}

/// The end that a relay reaches, where it is one of the network.
pub open spec fn target_end(open: RelayOpen) -> Option<EndpointView> {
    match open.target {
        Some(RelayTarget::Tcp(target)) => if target.port <= u16::MAX {
            Some(host_end(target.host@, target.port as u16))
        } else {
            None
        },
        Some(RelayTarget::AttestationService) => Some(
            EndpointView::Ip("127.0.0.1"@, ATTESTATION_SERVICE_PORT),
        ),
        _ => None,
    }
}

/// Whether `end` is the end that `view` tells of, or neither is there.
pub open spec fn same_end(end: Option<Endpoint>, view: Option<EndpointView>) -> bool {
    match view {
        Some(v) => end matches Some(e) && e.is(v),
        None => end is None,
    }
}

/// The end that a relay reaches, where it is one of the network.
pub fn relay_target_endpoint(open: &RelayOpen) -> (end: Option<Endpoint>)
    ensures
        same_end(end, target_end(*open)),
{
    match &open.target {
        Some(RelayTarget::Tcp(target)) => {
            if target.port > 0xffff {
                return None;
            }
            Some(event::host_endpoint(target.host.as_str(), target.port as u16))
        },
        Some(RelayTarget::AttestationService) => Some(
            Endpoint::from_ip("127.0.0.1".to_string(), ATTESTATION_SERVICE_PORT),
        ),
        _ => None,
    }
}

/// What a relay is called.
pub open spec fn kind_text(open: RelayOpen) -> Seq<char> {
    match open.target {
        Some(RelayTarget::Tcp(_)) => "tcp relay"@,
        Some(RelayTarget::AttestationService) => "attestation relay"@,
        _ => "ssh relay"@,
    }
}

/// What a relay is called.
pub fn relay_target_kind(open: &RelayOpen) -> (kind: &'static str)
    ensures
        kind@ == kind_text(*open),
{
    match &open.target {
        Some(RelayTarget::Tcp(_)) => "tcp relay",
        Some(RelayTarget::AttestationService) => "attestation relay",
        _ => "ssh relay",
    }
}

/// What a relay reaches, in text.
pub open spec fn target_text(open: RelayOpen, ssh_socket_path: Seq<char>) -> Seq<char> {
    match open.target {
        Some(RelayTarget::Tcp(target)) => trimmed(target.host@) + ":"@ + decimal_of(
            target.port as nat,
        ),
        Some(RelayTarget::AttestationService) => "127.0.0.1"@ + ":"@ + decimal_of(
            ATTESTATION_SERVICE_PORT as nat,
        ),
        _ => "unix:"@ + ssh_socket_path,
    }
}

/// A relay's state in words.
pub open spec fn relay_text(open: RelayOpen, state: Seq<char>, ssh_socket_path: Seq<char>) -> Seq<
    char,
> {
    kind_text(open) + " "@ + state + " (channel_id="@ + open.channel_id@ + ", target="@
        + target_text(open, ssh_socket_path) + ")"@
}

/// A relay's state in words.
pub fn relay_target_message(open: &RelayOpen, state: &str, ssh_socket_path: &str) -> (message:
    String)
    ensures
        message@ == relay_text(*open, state@, ssh_socket_path@),
{
    let target = match &open.target {
        Some(RelayTarget::Tcp(target)) => all_together(
            text::trim(target.host.as_str()),
            ":",
            text::decimal(target.port as u64).as_str(),
        ),
        Some(RelayTarget::AttestationService) => all_together(
            "127.0.0.1",
            ":",
            text::decimal(ATTESTATION_SERVICE_PORT as u64).as_str(),
        ),
        _ => together("unix:", ssh_socket_path),
    };
    let mut message = all_together(relay_target_kind(open), " ", state);
    message.append(" (channel_id=");
    message.append(open.channel_id.as_str());
    message.append(", target=");
    message.append(target.as_str());
    message.append(")");
    message
}

/// Whether `event` reports on a relay.
pub open spec fn reports_relay(
    event: NetworkEvent,
    activity: ActivityId,
    severity: SeverityId,
    status: StatusId,
    open: RelayOpen,
    message: Seq<char>,
) -> bool {
    &&& event.activity == activity
    &&& event.severity == severity
    &&& event.status == Some(status)
    &&& same_end(event.dst_endpoint, target_end(open))
    &&& match target_end(open) {
        Some(_) => event.connection_info matches Some(info) && info.protocol_name@ == "tcp"@,
        None => event.connection_info is None,
    }
    &&& event.message@ == message
}

fn relay_event(
    activity: ActivityId,
    severity: SeverityId,
    status: StatusId,
    open: &RelayOpen,
    message: String,
) -> (event: NetworkEvent)
    ensures
        reports_relay(event, activity, severity, status, *open, message@),
{
    let dst_endpoint = relay_target_endpoint(open);
    let connection_info = match &dst_endpoint {
        Some(_) => Some(ConnectionInfo { protocol_name: "tcp".to_string() }),
        None => None,
    };
    NetworkEvent {
        activity,
        severity,
        status: Some(status),
        dst_endpoint,
        connection_info,
        message,
    }
}

/// Whether `event` reports that a relay is opened.
pub open spec fn reports_open(event: NetworkEvent, open: RelayOpen, path: Seq<char>) -> bool {
    reports_relay(
        event,
        ActivityId::Open,
        SeverityId::Informational,
        StatusId::Success,
        open,
        relay_text(open, "open"@, path),
    )
}

/// The report that a relay is opened.
pub fn relay_open_event(open: &RelayOpen, ssh_socket_path: &str) -> (event: NetworkEvent)
    ensures
        reports_open(event, *open, ssh_socket_path@),
{
    relay_event(
        ActivityId::Open,
        SeverityId::Informational,
        StatusId::Success,
        open,
        relay_target_message(open, "open", ssh_socket_path),
    )
}

/// The report that a relay was closed.
pub fn relay_closed_event(open: &RelayOpen, ssh_socket_path: &str) -> (event: NetworkEvent)
    ensures
        reports_relay(
            event,
            ActivityId::Close,
            SeverityId::Informational,
            StatusId::Success,
            *open,
            relay_text(*open, "closed"@, ssh_socket_path@),
        ),
{
    relay_event(
        ActivityId::Close,
        SeverityId::Informational,
        StatusId::Success,
        open,
        relay_target_message(open, "closed", ssh_socket_path),
    )
}

/// The report that a relay failed.
pub fn relay_failed_event(open: &RelayOpen, ssh_socket_path: &str, error: &str) -> (event:
    NetworkEvent)
    ensures
        reports_relay(
            event,
            ActivityId::Fail,
            SeverityId::Low,
            StatusId::Failure,
            *open,
            relay_text(*open, "bridge failed"@, ssh_socket_path@) + ": "@ + error@,
        ),
{
    let text = relay_target_message(open, "bridge failed", ssh_socket_path);
    relay_event(
        ActivityId::Fail,
        SeverityId::Low,
        StatusId::Failure,
        open,
        all_together(text.as_str(), ": ", error),
    )
}

/// The report on a relay that ended, well or not.
pub fn relay_ended_event(open: &RelayOpen, ssh_socket_path: &str, outcome: &Result<(), String>) -> (event:
    NetworkEvent)
    ensures
        match *outcome {
            Ok(()) => reports_relay(
                event,
                ActivityId::Close,
                SeverityId::Informational,
                StatusId::Success,
                *open,
                relay_text(*open, "closed"@, ssh_socket_path@),
            ),
            Err(error) => reports_relay(
                event,
                ActivityId::Fail,
                SeverityId::Low,
                StatusId::Failure,
                *open,
                relay_text(*open, "bridge failed"@, ssh_socket_path@) + ": "@ + error@,
            ),
        },
{
    match outcome {
        Ok(()) => relay_closed_event(open, ssh_socket_path),
        Err(error) => relay_failed_event(open, ssh_socket_path, error.as_str()),
    }
}

/// Whether `event` reports that the gateway closes a relay.
pub open spec fn reports_gateway_close(
    event: NetworkEvent,
    channel_id: Seq<char>,
    reason: Seq<char>,
) -> bool {
    &&& event.activity == ActivityId::Close
    &&& event.severity == SeverityId::Informational
    &&& event.status is None
    &&& event.dst_endpoint is None
    &&& event.connection_info is None
    &&& event.message@ == "relay close from gateway (channel_id="@ + channel_id + ", reason="@
        + reason + ")"@
}

/// The report that the gateway closes a relay.
pub fn relay_close_from_gateway_event(channel_id: &str, reason: &str) -> (event: NetworkEvent)
    ensures
        reports_gateway_close(event, channel_id@, reason@),
{
    let mut message = all_together("relay close from gateway (channel_id=", channel_id, ", reason=");
    message.append(reason);
    message.append(")");
    NetworkEvent {
        activity: ActivityId::Close,
        severity: SeverityId::Informational,
        status: None,
        dst_endpoint: None,
        connection_info: None,
        message,
    }
}

/// The address that a host of a relay is dialled by, where it is this machine: `localhost`, or an
/// address of its own. No other host is ever reached.
pub open spec fn dialled_host(host: Seq<char>) -> Result<Seq<char>, Seq<char>> {
    let name = trimmed(host);
    if name.len() == 0 {
        Err("tcp target host is required"@)
    } else if lowered(name) == lowered("localhost"@) {
        Ok("127.0.0.1"@)
    } else {
        match ip_of(name) {
            Some(address) if loopback(address) => Ok(ip_text(address)),
            _ => Err("tcp target host must be loopback"@),
        }
    }
}

/// What the host of a relay is dialled by, once its port is seen to.
pub open spec fn normal_host(target: TcpRelayTarget) -> Result<Seq<char>, Seq<char>> {
    if target.port == 0 || target.port > u16::MAX {
        Err("tcp target port must be between 1 and 65535"@)
    } else {
        dialled_host(target.host@)
    }
}

/// What the host of a relay is dialled by.
pub fn normalize_tcp_target_host(target: &TcpRelayTarget) -> (result: Result<String, String>)
    ensures
        match normal_host(*target) {
            Ok(host) => result matches Ok(h) && h@ == host,
            Err(message) => result matches Err(e) && e@ == message,
        },
{
    if target.port == 0 || target.port > 0xffff {
        return Err("tcp target port must be between 1 and 65535".to_string());
    }
    let host = text::trim(target.host.as_str());
    if host.is_empty() {
        return Err("tcp target host is required".to_string());
    }
    if text::same_ignoring_case(host, "localhost") {
        return Ok("127.0.0.1".to_string());
    }
    match IpAddress::parse(host) {
        Some(address) => if address.is_loopback() {
            Ok(address.describe())
        } else {
            Err("tcp target host must be loopback".to_string())
        },
        None => Err("tcp target host must be loopback".to_string()),
    }
}

/// Whether a relay's target may be reached.
pub fn validate_tcp_target(target: &TcpRelayTarget) -> (result: Result<(), String>)
    ensures
        match normal_host(*target) {
            Ok(_) => result is Ok,
            Err(message) => result matches Err(e) && e@ == message,
        },
{
    match normalize_tcp_target_host(target) {
        Ok(_) => Ok(()),
        Err(message) => Err(message),
    }
}

/// What is dialled for a relay.
#[derive(Debug)]
pub enum Dial {
    /// A port of this machine, in the network that is named, if one is.
    Tcp { host: String, port: u16, netns_fd: Option<i32> },
    /// The socket of the SSH service.
    SshSocket,
}

/// What is dialled for a relay, from within the sandbox's network where `netns_fd` is.
pub open spec fn dials(
    open: RelayOpen,
    netns_fd: Option<i32>,
    result: Result<Dial, String>,
) -> bool {
    match open.target {
        Some(RelayTarget::Tcp(target)) => match normal_host(target) {
            Ok(host) => result matches Ok(Dial::Tcp { host: h, port, netns_fd: fd }) && h@ == host
                && port == target.port && fd == netns_fd,
            Err(message) => result matches Err(e) && e@ == message,
        },
        Some(RelayTarget::AttestationService) => result matches Ok(
            Dial::Tcp { host, port, netns_fd: fd },
        ) && host@ == "127.0.0.1"@ && port == ATTESTATION_SERVICE_PORT && fd is None,
        _ => result == Ok::<Dial, String>(Dial::SshSocket),
    }
}

/// What is dialled for a relay: a target of the network in the sandbox's network, the attestation
/// service in the supervisor's.
pub fn dial_target(open: &RelayOpen, netns_fd: Option<i32>) -> (result: Result<Dial, String>)
    ensures
        dials(*open, netns_fd, result),
{
    match &open.target {
        Some(RelayTarget::Tcp(target)) => match normalize_tcp_target_host(target) {
            Ok(host) => Ok(Dial::Tcp { host, port: target.port as u16, netns_fd }),
            Err(message) => Err(message),
        },
        Some(RelayTarget::AttestationService) => {
            let (host, port, netns_fd) = attestation_service_dial_target();
            Ok(Dial::Tcp { host: host.to_string(), port, netns_fd })
        },
        _ => Ok(Dial::SshSocket),
    }
}

/// A process number in words, as it may be there or not.
pub open spec fn pid_text(pid: Option<u32>) -> Seq<char> {
    match pid {
        Some(n) => "Some("@ + decimal_of(n as nat) + ")"@,
        None => "None"@,
    }
}

/// The process at the other end of a socket: none where its number is negative.
pub open spec fn actual_pid(pid: Option<i32>) -> Option<u32> {
    match pid {
        Some(n) if n >= 0 => Some(n as u32),
        _ => None,
    }
}

/// What is found of the process at the other end of the SSH socket.
pub open spec fn recognizes(
    expected: Option<u32>,
    pid: Option<i32>,
    result: Result<(), String>,
) -> bool {
    match expected {
        None => result is Ok,
        Some(wanted) => if actual_pid(pid) == Some(wanted) {
            result is Ok
        } else {
            result matches Err(e) && e@ == "SSH relay peer PID mismatch: expected "@ + decimal_of(
                wanted as nat,
            ) + ", got "@ + pid_text(actual_pid(pid))
        },
    }
}

/// Whether the process at the other end of the SSH socket is the one that is expected, if one is.
pub fn check_peer(expected: Option<u32>, pid: Option<i32>) -> (result: Result<(), String>)
    ensures
        recognizes(expected, pid, result),
{
    let wanted = match expected {
        Some(wanted) => wanted,
        None => return Ok(()),
    };
    let actual: Option<u32> = match pid {
        Some(n) if n >= 0 => Some(n as u32),
        _ => None,
    };
    if let Some(n) = actual {
        if n == wanted {
            return Ok(());
        }
    }
    let mut message = all_together(
        "SSH relay peer PID mismatch: expected ",
        text::decimal(wanted as u64).as_str(),
        ", got ",
    );
    match actual {
        Some(n) => {
            let got = all_together("Some(", text::decimal(n as u64).as_str(), ")");
            message.append(got.as_str());
        },
        None => {
            message.append("None");
        },
    }
    Err(message)
}

/// What the gateway is told of a relay that it asked for.
#[derive(Debug)]
pub struct RelayOpenResult {
    pub channel_id: String,
    pub success: bool,
    pub error: String,
}

impl RelayOpenResult {
    /// Whether this tells of a channel that its target was reached, or why it was not.
    pub open spec fn tells(self, channel_id: Seq<char>, outcome: Result<(), String>) -> bool {
        &&& self.channel_id@ == channel_id
        &&& self.success == (outcome is Ok)
        &&& self.error@ == match outcome {
            Ok(()) => Seq::empty(),
            Err(error) => error@,
        }
    }
}

/// What the gateway is told of a relay, given whether its target was reached.
pub fn relay_open_result(channel_id: &str, outcome: &Result<(), String>) -> (result: RelayOpenResult)
    ensures
        result.tells(channel_id@, *outcome),
{
    match outcome {
        Ok(()) => RelayOpenResult {
            channel_id: channel_id.to_string(),
            success: true,
            error: String::new(),
        },
        Err(error) => RelayOpenResult {
            channel_id: channel_id.to_string(),
            success: false,
            error: error.clone(),
        },
    }
}

/// A transport that failed: why, and whether it is what an ordered shutdown looks like.
#[derive(Debug)]
pub struct StreamFault {
    pub status: String,
    pub expected_close: bool,
}

impl StreamFault {
    /// Whether the fault is part of this supervisor's own shutdown.
    pub open spec fn shutdown(self, terminating: bool) -> bool {
        terminating && self.expected_close
    }
}

/// Whether a transport failed because this supervisor shuts down.
pub fn expected_transport_close_during_shutdown(fault: &StreamFault, terminating: bool) -> (yes: bool)
    ensures
        yes == fault.shutdown(terminating),
{
    terminating && fault.expected_close
}

/// How a relay ends whose stream could not be opened: in order where this supervisor shuts down.
pub open spec fn ends_unopened(
    fault: StreamFault,
    terminating: bool,
    outcome: Result<(), String>,
) -> bool {
    if fault.shutdown(terminating) {
        outcome is Ok
    } else {
        outcome matches Err(e) && e@ == "relay_stream RPC failed: "@ + fault.status@
    }
}

/// What opening the stream of a relay came to: it is open, or the relay ends.
pub fn relay_stream_outcome(opened: Result<(), StreamFault>, terminating: bool) -> (ended: Option<
    Result<(), String>,
>)
    ensures
        match opened {
            Ok(()) => ended is None,
            Err(fault) => ended matches Some(outcome) && ends_unopened(fault, terminating, outcome),
        },
{
    match opened {
        Ok(()) => None,
        Err(fault) => if expected_transport_close_during_shutdown(&fault, terminating) {
            Some(Ok(()))
        } else {
            Some(Err(together("relay_stream RPC failed: ", fault.status.as_str())))
        },
    }
}

/// A frame of a relay.
#[derive(Debug)]
pub enum RelayFrame {
    /// The first frame, which names the channel.
    Init { channel_id: String },
    /// Bytes that are carried.
    Data(Vec<u8>),
    /// A frame without contents.
    Empty,
}

/// What comes over the stream of a relay.
#[derive(Debug)]
pub enum Inbound {
    /// A frame.
    Frame(RelayFrame),
    /// The stream failed.
    Fault(StreamFault),
    /// The stream ended.
    End,
    /// The local service did not take the bytes.
    WriteFailed(String),
}

/// What is done with what comes over the stream of a relay.
#[derive(Debug)]
pub enum InboundAction {
    /// Hand these bytes to the local service.
    Write(Vec<u8>),
    /// Wait for more.
    Wait,
    /// End the relay.
    Finish(Result<(), String>),
}

/// How a relay ends by something that comes over its stream and is no data.
pub open spec fn ends_inbound(
    inbound: Inbound,
    terminating: bool,
    outcome: Result<(), String>,
) -> bool {
    match inbound {
        Inbound::Frame(_) => outcome matches Err(e) && e@
            == "relay inbound received non-data frame"@,
        Inbound::Fault(fault) => if fault.shutdown(terminating) {
            outcome is Ok
        } else {
            outcome matches Err(e) && e@ == "relay inbound errored: "@ + fault.status@
        },
        Inbound::End => outcome is Ok,
        Inbound::WriteFailed(reason) => outcome matches Err(e) && e@ == "write to target failed: "@
            + reason@,
    }
}

/// Takes what comes over the stream of a relay: bytes go to the local service, and anything that
/// is no data ends the relay.
pub fn inbound_step(inbound: Inbound, terminating: bool) -> (action: InboundAction)
    ensures
        match inbound {
            Inbound::Frame(RelayFrame::Data(data)) => if data@.len() == 0 {
                action is Wait
            } else {
                action == InboundAction::Write(data)
            },
            _ => action matches InboundAction::Finish(outcome) && ends_inbound(
                inbound,
                terminating,
                outcome,
            ),
        },
{
    match inbound {
        Inbound::Frame(RelayFrame::Data(data)) => if data.len() == 0 {
            InboundAction::Wait
        } else {
            InboundAction::Write(data)
        },
        Inbound::Frame(_) => InboundAction::Finish(
            Err("relay inbound received non-data frame".to_string()),
        ),
        Inbound::Fault(fault) => if expected_transport_close_during_shutdown(&fault, terminating) {
            InboundAction::Finish(Ok(()))
        } else {
            InboundAction::Finish(Err(together("relay inbound errored: ", fault.status.as_str())))
        },
        Inbound::End => InboundAction::Finish(Ok(())),
        Inbound::WriteFailed(reason) => InboundAction::Finish(
            Err(together("write to target failed: ", reason.as_str())),
        ),
    }
}

/// The first frame of a relay, which names its channel.
pub fn init_frame(channel_id: &str) -> (frame: RelayFrame)
    ensures
        frame matches RelayFrame::Init { channel_id: id } && id@ == channel_id@,
{
    RelayFrame::Init { channel_id: channel_id.to_string() }
}

/// What reading from the local service gave, no more than is read at once, becomes a frame: the
/// bytes that were read, or nothing more where it ended or failed.
pub fn outbound_frame(read: Result<Vec<u8>, String>) -> (frame: Option<RelayFrame>)
    requires
        read matches Ok(bytes) ==> bytes@.len() <= RELAY_CHUNK_SIZE,
    ensures
        match read {
            Ok(bytes) if bytes@.len() > 0 => frame == Some(RelayFrame::Data(bytes)),
            _ => frame is None,
        },
        frame matches Some(RelayFrame::Data(data)) ==> 1 <= data@.len() <= RELAY_CHUNK_SIZE,
{
    match read {
        Ok(bytes) => if bytes.len() > 0 {
            Some(RelayFrame::Data(bytes))
        } else {
            None
        },
        Err(_) => None,
    }
}

/// A relay to a host reaches nothing but this machine: what is dialled is the text of an address
/// of the loopback, and is read as that address.
pub proof fn lemma_relays_stay_local(target: TcpRelayTarget)
    ensures
        normal_host(target) matches Ok(host) ==> (ip_of(host) matches Some(address) && loopback(
            address,
        ) && host == ip_text(address)),
{
    let name = trimmed(target.host@);
    if normal_host(target) is Ok {
        if lowered(name) == lowered("localhost"@) {
            let own = IpView::V4(seq![127u8, 0u8, 0u8, 1u8]);
            reveal_strlit("127.0.0.1");
            reveal_strlit(".");
            reveal_with_fuel(decimal_of, 4);
            assert(ip_text(own) =~= "127.0.0.1"@);
            lemma_text_is_read_back(own);
        } else {
            lemma_read_address_is_whole(name);
            lemma_text_is_read_back(ip_of(name)->0);
        }
    }
}

/// A target of the network is reached exactly where its port is one, and its host is `localhost`
/// in letters of either case or an address of the loopback; `localhost` is dialled as 127.0.0.1,
/// and anything else is refused.
pub proof fn lemma_targets_that_are_reached(target: TcpRelayTarget)
    ensures
        ({
            let name = trimmed(target.host@);
            let port = 1 <= target.port <= 65535;
            let local = lowered(name) == lowered("localhost"@);
            let own = ip_of(name) matches Some(address) && loopback(address);
            &&& normal_host(target) is Ok <==> port && name.len() > 0 && (local || own)
            &&& port && name.len() > 0 && local ==> normal_host(target) == Ok::<
                Seq<char>,
                Seq<char>,
            >("127.0.0.1"@)
            &&& port && name.len() > 0 && !local && own ==> normal_host(target) == Ok::<
                Seq<char>,
                Seq<char>,
            >(ip_text(ip_of(name)->0))
            &&& !port ==> normal_host(target) == Err::<Seq<char>, Seq<char>>(
                "tcp target port must be between 1 and 65535"@,
            )
            &&& port && name.len() == 0 ==> normal_host(target) == Err::<Seq<char>, Seq<char>>(
                "tcp target host is required"@,
            )
            &&& port && name.len() > 0 && !local && !own ==> normal_host(target) == Err::<
                Seq<char>,
                Seq<char>,
            >("tcp target host must be loopback"@)
        }),
{
}

/// What is said of a relay names what it is for, its channel and what it reaches.
pub proof fn lemma_relays_are_told_apart(open: RelayOpen, state: Seq<char>, path: Seq<char>)
    ensures
        open.target matches Some(RelayTarget::Tcp(target)) ==> relay_text(open, state, path)
            == "tcp relay"@ + " "@ + state + " (channel_id="@ + open.channel_id@ + ", target="@ + (
        trimmed(target.host@) + ":"@ + decimal_of(target.port as nat)) + ")"@,
        open.target == Some(RelayTarget::AttestationService) ==> relay_text(open, state, path)
            == "attestation relay"@ + " "@ + state + " (channel_id="@ + open.channel_id@
            + ", target="@ + ("127.0.0.1"@ + ":"@ + decimal_of(8006)) + ")"@,
        open.target is None || open.target == Some(RelayTarget::Ssh) ==> relay_text(
            open,
            state,
            path,
        ) == "ssh relay"@ + " "@ + state + " (channel_id="@ + open.channel_id@ + ", target="@ + (
        "unix:"@ + path) + ")"@,
{
}

/// A report on a relay names the end that it reaches: the host and the port of a target of the
/// network, this machine for the attestation service, and none for SSH.
pub proof fn lemma_reports_name_the_end(
    event: NetworkEvent,
    activity: ActivityId,
    severity: SeverityId,
    status: StatusId,
    open: RelayOpen,
    message: Seq<char>,
)
    requires
        reports_relay(event, activity, severity, status, open, message),
    ensures
        event.activity == activity,
        event.severity == severity,
        event.status == Some(status),
        event.message@ == message,
        open.target matches Some(RelayTarget::Tcp(target)) ==> (target.port <= 65535 ==> (
        event.dst_endpoint matches Some(end) && end.port == Some(target.port as u16) && (
        end.domain matches Some(domain) ==> domain@ == trimmed(target.host@)) && (end.domain is Some
            <==> ip_of(trimmed(target.host@)) is None) && (end.ip matches Some(ip) ==> (ip_of(
            trimmed(target.host@),
        ) matches Some(address) && ip@ == ip_text(address))))),
        open.target == Some(RelayTarget::AttestationService) ==> (event.dst_endpoint matches Some(
            end,
        ) && end.port == Some(8006u16) && end.domain is None && (end.ip matches Some(ip) && ip@
            == "127.0.0.1"@)),
        open.target is None || open.target == Some(RelayTarget::Ssh) ==> event.dst_endpoint is None
            && event.connection_info is None,
        event.dst_endpoint is Some <==> event.connection_info is Some,
        event.connection_info matches Some(info) ==> info.protocol_name@ == "tcp"@,
{
}

/// A relay that is opened is reported as opened and in order; one that the gateway closes is
/// reported by its channel and the gateway's reason.
pub proof fn lemma_opening_and_closing_are_reported(
    event: NetworkEvent,
    open: RelayOpen,
    path: Seq<char>,
    reason: Seq<char>,
)
    ensures
        reports_open(event, open, path) ==> event.activity == ActivityId::Open && event.severity
            == SeverityId::Informational && event.status == Some(StatusId::Success)
            && event.message@ == relay_text(open, "open"@, path),
        reports_gateway_close(event, open.channel_id@, reason) ==> event.activity
            == ActivityId::Close && event.severity == SeverityId::Informational
            && event.status is None && event.dst_endpoint is None && event.message@
            == "relay close from gateway (channel_id="@ + open.channel_id@ + ", reason="@ + reason
            + ")"@,
{
}

/// No more than sixteen kibibytes are read from a local service at once, and the attestation
/// service listens on port 8006.
pub proof fn lemma_relay_bounds()
    ensures
        RELAY_CHUNK_SIZE == 16 * 1024,
        ATTESTATION_SERVICE_PORT == 8006,
{
}

/// A relay dials what its target says: a port of the network is dialled under its own number and
/// from where the sandbox's network is, and only on the loopback; the attestation service is
/// dialled from here, at 127.0.0.1 and port 8006; and anything else is the SSH socket.
pub proof fn lemma_targets_are_dialled(
    open: RelayOpen,
    netns_fd: Option<i32>,
    result: Result<Dial, String>,
)
    requires
        dials(open, netns_fd, result),
    ensures
        result == Ok::<Dial, String>(Dial::SshSocket) <==> open.target is None || open.target
            == Some(RelayTarget::Ssh),
        open.target matches Some(RelayTarget::Tcp(target)) ==> {
            &&& result matches Ok(dial) ==> (dial matches Dial::Tcp { host, port, netns_fd: fd }
                && {
                &&& port == target.port
                &&& fd == netns_fd
                &&& 1 <= target.port <= 65535
                &&& lowered(trimmed(target.host@)) == lowered("localhost"@) ==> host@
                    == "127.0.0.1"@
                &&& lowered(trimmed(target.host@)) != lowered("localhost"@) ==> (ip_of(
                    trimmed(target.host@),
                ) matches Some(address) && loopback(address) && host@ == ip_text(address))
            })
            &&& 1 <= target.port <= 65535 && trimmed(target.host@).len() > 0 && lowered(
                trimmed(target.host@),
            ) == lowered("localhost"@) ==> result is Ok
        },
        open.target == Some(RelayTarget::AttestationService) ==> (result matches Ok(
            Dial::Tcp { host, port, netns_fd: fd },
        ) && host@ == "127.0.0.1"@ && port == 8006 && fd is None),
{
    if let Some(RelayTarget::Tcp(target)) = open.target {
        lemma_targets_that_are_reached(target);
    }
}

/// The other end of the SSH socket is recognised exactly where no process is expected, or where
/// it is the expected one; a process that is not there, or whose number is negative, is not.
pub proof fn lemma_peers_are_recognised(
    expected: Option<u32>,
    pid: Option<i32>,
    result: Result<(), String>,
)
    requires
        recognizes(expected, pid, result),
    ensures
        result is Ok <==> match expected {
            None => true,
            Some(wanted) => pid matches Some(number) && number as int == wanted as int,
        },
{
}

/// A fault is part of the shutdown exactly where this supervisor shuts down and the fault is what
/// that looks like; a relay whose stream could not be opened ends in order then, and otherwise
/// says what went wrong.
pub proof fn lemma_faults_count_but_at_shutdown(
    fault: StreamFault,
    terminating: bool,
    outcome: Result<(), String>,
)
    ensures
        fault.shutdown(terminating) <==> terminating && fault.expected_close,
        ends_unopened(fault, terminating, outcome) ==> (outcome is Ok <==> terminating
            && fault.expected_close),
        ends_unopened(fault, terminating, outcome) ==> (outcome matches Err(why) ==> why@
            == "relay_stream RPC failed: "@ + fault.status@),
{
}

/// A relay is called by what it reaches; the end that it reaches is that of its target, and none
/// where its port is no port or it is for SSH.
pub proof fn lemma_relays_reach_their_target(open: RelayOpen)
    ensures
        open.target matches Some(RelayTarget::Tcp(target)) ==> {
            &&& kind_text(open) == "tcp relay"@
            &&& target_end(open) is Some <==> target.port <= 65535
            &&& target_end(open) matches Some(end) ==> end == host_end(
                target.host@,
                target.port as u16,
            )
        },
        open.target == Some(RelayTarget::AttestationService) ==> kind_text(open)
            == "attestation relay"@ && target_end(open) == Some(
            EndpointView::Ip("127.0.0.1"@, 8006),
        ),
        open.target is None || open.target == Some(RelayTarget::Ssh) ==> kind_text(open)
            == "ssh relay"@ && target_end(open) is None,
{
}

/// The gateway is told of every relay by its channel whether its target was reached, and why it
/// was not; of one that was reached there is nothing else to say.
pub proof fn lemma_results_tell_what_happened(
    result: RelayOpenResult,
    channel_id: Seq<char>,
    outcome: Result<(), String>,
)
    requires
        result.tells(channel_id, outcome),
    ensures
        result.channel_id@ == channel_id,
        result.success <==> outcome is Ok,
        outcome is Ok ==> result.error@.len() == 0,
        outcome matches Err(why) ==> result.error@ == why@,
{
}

} // verus!
