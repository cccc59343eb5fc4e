use openshell::ip::IpAddress;
use openshell::supervisor::bridge::{RelayAction, RelayEvent, RelayState};
use openshell::supervisor::event::{
    host_endpoint, ocsf_gateway_endpoint, session_closed_event, session_established_event,
    session_failed_event, ActivityId, SeverityId, StatusId,
};
use openshell::supervisor::relay::{
    attestation_service_dial_target, check_peer, dial_target, inbound_step, init_frame,
    normalize_tcp_target_host, outbound_frame, relay_close_from_gateway_event, relay_closed_event,
    relay_ended_event, relay_failed_event, relay_open_event, relay_open_result,
    relay_stream_outcome, relay_target_endpoint, relay_target_message, validate_tcp_target, Dial,
    Inbound, InboundAction, RelayFrame, RelayOpen, RelayTarget, StreamFault, TcpRelayTarget,
    ATTESTATION_SERVICE_PORT, RELAY_CHUNK_SIZE,
};
use openshell::supervisor::session::{
    handle_gateway_message, map_session_stream_message, map_stream_message, GatewayAction,
    GatewayMessage, LoopAction, SessionAction, SessionContext, SessionEvent, SessionLoop,
    SessionState, SessionStreamMessage,
};

const SSH_SOCKET_PATH: &str = "/run/openshell/ssh.sock";

fn tcp(host: &str, port: u32) -> TcpRelayTarget {
    TcpRelayTarget {
        host: host.to_string(),
        port,
    }
}

fn ssh_relay_open(channel_id: &str) -> RelayOpen {
    RelayOpen {
        channel_id: channel_id.to_string(),
        target: Some(RelayTarget::Ssh),
        service_id: String::new(),
    }
}

fn tcp_relay_open(channel_id: &str, host: &str, port: u32) -> RelayOpen {
    RelayOpen {
        channel_id: channel_id.to_string(),
        target: Some(RelayTarget::Tcp(tcp(host, port))),
        service_id: String::new(),
    }
}

fn attestation_relay_open(channel_id: &str) -> RelayOpen {
    RelayOpen {
        channel_id: channel_id.to_string(),
        target: Some(RelayTarget::AttestationService),
        service_id: "attestation-report".to_string(),
    }
}

fn fault(status: &str, expected_close: bool) -> StreamFault {
    StreamFault {
        status: status.to_string(),
        expected_close,
    }
}

#[test]
fn tcp_target_allows_loopback_hosts() {
    validate_tcp_target(&tcp("127.0.0.1", 8080)).expect("ipv4 loopback");
    validate_tcp_target(&tcp("::1", 8080)).expect("ipv6 loopback");
    validate_tcp_target(&tcp("localhost", 8080)).expect("localhost");
}

#[test]
fn tcp_target_normalizes_localhost_before_dialing() {
    assert_eq!(
        normalize_tcp_target_host(&tcp("localhost", 8080)).expect("localhost"),
        "127.0.0.1"
    );
    assert_eq!(
        normalize_tcp_target_host(&tcp("LOCALHOST", 8080)).expect("localhost"),
        "127.0.0.1"
    );
}

#[test]
fn tcp_target_rejects_non_loopback_hosts() {
    let err = validate_tcp_target(&tcp("10.0.0.1", 8080)).expect_err("private ip rejected");
    assert_eq!(err, "tcp target host must be loopback");

    let err = validate_tcp_target(&tcp("example.com", 8080)).expect_err("hostname rejected");
    assert_eq!(err, "tcp target host must be loopback");
}

#[test]
fn tcp_target_rejects_invalid_ports() {
    let err = validate_tcp_target(&tcp("127.0.0.1", 0)).expect_err("zero rejected");
    assert_eq!(err, "tcp target port must be between 1 and 65535");

    let err = validate_tcp_target(&tcp("127.0.0.1", 70000)).expect_err("too large rejected");
    assert_eq!(err, "tcp target port must be between 1 and 65535");
}

#[test]
fn tcp_targets_are_dialled_by_their_address() {
    assert_eq!(
        normalize_tcp_target_host(&tcp("  127.1.2.3 ", 1)).unwrap(),
        "127.1.2.3"
    );
    assert_eq!(
        normalize_tcp_target_host(&tcp("0:0:0:0:0:0:0:1", 1)).unwrap(),
        "::1"
    );
    assert_eq!(
        normalize_tcp_target_host(&tcp("  ", 1)).unwrap_err(),
        "tcp target host is required"
    );
}

#[test]
fn gateway_endpoint_parses_https_with_port() {
    let e = ocsf_gateway_endpoint("https://gateway.openshell:8443");
    assert_eq!(e.domain.as_deref(), Some("gateway.openshell"));
    assert_eq!(e.port, Some(8443));
}

#[test]
fn gateway_endpoint_parses_http_with_port_and_path() {
    let e = ocsf_gateway_endpoint("http://gw:7000/grpc");
    assert_eq!(e.domain.as_deref(), Some("gw"));
    assert_eq!(e.port, Some(7000));
}

#[test]
fn gateway_endpoint_falls_back_without_port() {
    let e = ocsf_gateway_endpoint("gateway.openshell");
    assert_eq!(e.domain.as_deref(), Some("gateway.openshell"));
    assert_eq!(e.port, Some(0));
}

#[test]
fn gateway_endpoint_keeps_what_is_no_port() {
    let e = ocsf_gateway_endpoint("https://gw:http/x");
    assert_eq!(e.domain.as_deref(), Some("gw:http"));
    assert_eq!(e.port, Some(0));
}

#[test]
fn session_established_emits_network_open_success() {
    let event = session_established_event("https://gw:443", "sess-1", 30);
    assert_eq!(event.activity, ActivityId::Open);
    assert_eq!(event.severity, SeverityId::Informational);
    assert_eq!(event.status, Some(StatusId::Success));
    assert_eq!(
        event
            .dst_endpoint
            .as_ref()
            .and_then(|e| e.domain.as_deref()),
        Some("gw")
    );
    let msg = event.message.as_str();
    assert!(msg.contains("sess-1"), "message missing session_id: {msg}");
    assert!(msg.contains("heartbeat_secs=30"), "message: {msg}");
}

#[test]
fn session_closed_emits_network_close_success() {
    let event = session_closed_event("https://gw:443", "sbx-1");
    assert_eq!(event.activity, ActivityId::Close);
    assert_eq!(event.severity, SeverityId::Informational);
    assert_eq!(event.status, Some(StatusId::Success));
    assert_eq!(event.message, "supervisor session ended cleanly (sbx-1)");
}

#[test]
fn session_failed_emits_network_fail_low() {
    let event = session_failed_event("https://gw:443", 3, "connect refused");
    assert_eq!(event.activity, ActivityId::Fail);
    assert_eq!(event.severity, SeverityId::Low);
    assert_eq!(event.status, Some(StatusId::Failure));
    let msg = event.message.as_str();
    assert!(msg.contains("attempt 3"), "message: {msg}");
    assert!(msg.contains("connect refused"), "message: {msg}");
}

#[test]
fn relay_open_emits_network_open_success() {
    let event = relay_open_event(&ssh_relay_open("ch-42"), SSH_SOCKET_PATH);
    assert_eq!(event.activity, ActivityId::Open);
    assert_eq!(event.severity, SeverityId::Informational);
    let msg = event.message.as_str();
    assert!(msg.contains("ch-42"), "message: {msg}");
    assert!(
        msg.contains("target=unix:/run/openshell/ssh.sock"),
        "message: {msg}"
    );
    assert!(event.dst_endpoint.is_none());
    assert!(event.connection_info.is_none());
}

#[test]
fn tcp_relay_open_emits_target_endpoint() {
    let event = relay_open_event(&tcp_relay_open("ch-42", "127.0.0.1", 8765), SSH_SOCKET_PATH);
    assert_eq!(event.activity, ActivityId::Open);
    assert_eq!(
        event.dst_endpoint.as_ref().and_then(|e| e.ip.as_deref()),
        Some("127.0.0.1")
    );
    assert_eq!(event.dst_endpoint.as_ref().and_then(|e| e.port), Some(8765));
    assert_eq!(
        event
            .connection_info
            .as_ref()
            .map(|c| c.protocol_name.as_str()),
        Some("tcp")
    );
}

#[test]
fn attestation_relay_uses_fixed_supervisor_loopback_endpoint() {
    let relay = attestation_relay_open("attestation");
    assert_eq!(
        attestation_service_dial_target(),
        ("127.0.0.1", 8006, None),
        "ASR must be dialed from the supervisor namespace"
    );
    let endpoint = relay_target_endpoint(&relay).expect("attestation endpoint");
    assert_eq!(endpoint.ip.as_deref(), Some("127.0.0.1"));
    assert_eq!(endpoint.port, Some(ATTESTATION_SERVICE_PORT));

    let message = relay_target_message(&relay, "open", SSH_SOCKET_PATH);
    assert!(message.contains("attestation relay"));
    assert!(message.contains("target=127.0.0.1:8006"));
}

#[test]
fn relay_closed_emits_network_close_success() {
    let event = relay_closed_event(&ssh_relay_open("ch-42"), SSH_SOCKET_PATH);
    assert_eq!(event.activity, ActivityId::Close);
    assert_eq!(event.status, Some(StatusId::Success));
}

#[test]
fn relay_failed_emits_network_fail_low() {
    let event = relay_failed_event(
        &ssh_relay_open("ch-42"),
        SSH_SOCKET_PATH,
        "write to ssh failed",
    );
    assert_eq!(event.activity, ActivityId::Fail);
    assert_eq!(event.severity, SeverityId::Low);
    assert_eq!(event.status, Some(StatusId::Failure));
    let msg = event.message.as_str();
    assert!(msg.contains("ch-42"), "message: {msg}");
    assert!(msg.contains("write to ssh failed"), "message: {msg}");
}

#[test]
fn relay_close_from_gateway_is_network_close_informational() {
    let event = relay_close_from_gateway_event("ch-42", "sandbox deleted");
    assert_eq!(event.activity, ActivityId::Close);
    assert_eq!(event.severity, SeverityId::Informational);
    assert!(event.status.is_none());
    let msg = event.message.as_str();
    assert!(msg.contains("sandbox deleted"), "message: {msg}");
}

#[test]
fn map_stream_message_treats_eof_as_reconnectable_error() {
    let err = map_stream_message::<GatewayMessage>(Ok(None), "gateway closed stream")
        .expect_err("eof should force reconnect");
    assert_eq!(err, "gateway closed stream");
}

#[test]
fn map_session_stream_message_allows_expected_close_during_shutdown() {
    let message = map_session_stream_message::<GatewayMessage>(
        Err(fault(
            "h2 protocol error: error reading a body from connection",
            true,
        )),
        "gateway closed stream",
        true,
    )
    .expect("expected transport close should be non-fatal during shutdown");

    assert!(matches!(
        message,
        SessionStreamMessage::ExpectedShutdownClose
    ));
}

#[test]
fn map_session_stream_message_keeps_transport_close_fatal_when_not_shutting_down() {
    let err = map_session_stream_message::<GatewayMessage>(
        Err(fault(
            "h2 protocol error: error reading a body from connection",
            true,
        )),
        "gateway closed stream",
        false,
    )
    .expect_err("same transport close should fail before shutdown starts");

    assert!(err.contains("h2 protocol error"));
}

#[test]
fn map_session_stream_message_keeps_unexpected_error_fatal_during_shutdown() {
    let err = map_session_stream_message::<GatewayMessage>(
        Err(fault("policy evaluation failed", false)),
        "gateway closed stream",
        true,
    )
    .expect_err("non-transport errors must stay fatal");

    assert!(err.contains("policy evaluation failed"));
}

#[test]
fn relays_say_what_they_reach() {
    assert_eq!(
        relay_target_message(&tcp_relay_open("c", " web ", 70000), "open", SSH_SOCKET_PATH),
        "tcp relay open (channel_id=c, target=web:70000)"
    );
    assert!(relay_target_endpoint(&tcp_relay_open("c", "web", 70000)).is_none());
    let untold = RelayOpen {
        channel_id: "c".to_string(),
        target: None,
        service_id: String::new(),
    };
    assert_eq!(
        relay_target_message(&untold, "closed", SSH_SOCKET_PATH),
        "ssh relay closed (channel_id=c, target=unix:/run/openshell/ssh.sock)"
    );
    let event = relay_ended_event(&untold, SSH_SOCKET_PATH, &Err("x".to_string()));
    assert_eq!(
        event.message,
        "ssh relay bridge failed (channel_id=c, target=unix:/run/openshell/ssh.sock): x"
    );
    let event = relay_ended_event(&untold, SSH_SOCKET_PATH, &Ok(()));
    assert_eq!(event.activity, ActivityId::Close);
}

#[test]
fn relays_are_dialled_in_their_network() {
    match dial_target(&tcp_relay_open("c", "localhost", 80), Some(7)).unwrap() {
        Dial::Tcp { host, port, netns_fd } => {
            assert_eq!((host.as_str(), port, netns_fd), ("127.0.0.1", 80, Some(7)));
        }
        Dial::SshSocket => panic!("a port is dialled"),
    }
    match dial_target(&attestation_relay_open("c"), Some(7)).unwrap() {
        Dial::Tcp { host, port, netns_fd } => {
            assert_eq!((host.as_str(), port, netns_fd), ("127.0.0.1", 8006, None));
        }
        Dial::SshSocket => panic!("a port is dialled"),
    }
    assert!(matches!(
        dial_target(&ssh_relay_open("c"), Some(7)).unwrap(),
        Dial::SshSocket
    ));
    assert_eq!(
        dial_target(&tcp_relay_open("c", "10.0.0.1", 80), None).unwrap_err(),
        "tcp target host must be loopback"
    );
}

#[test]
fn the_ssh_peer_is_checked() {
    assert!(check_peer(None, None).is_ok());
    assert!(check_peer(Some(12), Some(12)).is_ok());
    assert_eq!(
        check_peer(Some(12), Some(13)).unwrap_err(),
        "SSH relay peer PID mismatch: expected 12, got Some(13)"
    );
    assert_eq!(
        check_peer(Some(12), Some(-1)).unwrap_err(),
        "SSH relay peer PID mismatch: expected 12, got None"
    );
}

#[test]
fn relays_carry_data_and_nothing_else() {
    let result = relay_open_result("c", &Ok(()));
    assert!(result.success);
    assert_eq!(result.error, "");
    let result = relay_open_result("c", &Err("refused".to_string()));
    assert!(!result.success);
    assert_eq!(result.error, "refused");
    assert_eq!(result.channel_id, "c");

    assert!(relay_stream_outcome(Ok(()), false).is_none());
    assert_eq!(relay_stream_outcome(Err(fault("x", true)), true), Some(Ok(())));
    assert_eq!(
        relay_stream_outcome(Err(fault("x", true)), false),
        Some(Err("relay_stream RPC failed: x".to_string()))
    );

    let data = Inbound::Frame(RelayFrame::Data(vec![1, 2]));
    match inbound_step(data, false) {
        InboundAction::Write(bytes) => assert_eq!(bytes, vec![1, 2]),
        other => panic!("bytes are written: {other:?}"),
    }
    assert!(matches!(
        inbound_step(Inbound::Frame(RelayFrame::Data(Vec::new())), false),
        InboundAction::Wait
    ));
    let finished = |inbound: Inbound, terminating: bool| match inbound_step(inbound, terminating) {
        InboundAction::Finish(outcome) => outcome,
        other => panic!("the relay ends: {other:?}"),
    };
    assert_eq!(
        finished(Inbound::Frame(RelayFrame::Empty), false).unwrap_err(),
        "relay inbound received non-data frame"
    );
    assert_eq!(
        finished(Inbound::Fault(fault("x", false)), true).unwrap_err(),
        "relay inbound errored: x"
    );
    assert!(finished(Inbound::Fault(fault("x", true)), true).is_ok());
    assert!(finished(Inbound::End, false).is_ok());
    assert_eq!(
        finished(Inbound::WriteFailed("full".to_string()), false).unwrap_err(),
        "write to target failed: full"
    );
    assert!(matches!(init_frame("c"), RelayFrame::Init { channel_id } if channel_id == "c"));
    assert!(matches!(outbound_frame(Ok(vec![1])), Some(RelayFrame::Data(_))));
    assert!(outbound_frame(Ok(Vec::new())).is_none());
    assert!(outbound_frame(Err("x".to_string())).is_none());
    assert_eq!(RELAY_CHUNK_SIZE, 16 * 1024);
}

fn stepped(state: RelayState, event: RelayEvent) -> (RelayState, RelayAction) {
    assert!(state.can_take(&event));
    state.step(event, false)
}

#[test]
fn a_relay_takes_only_what_it_waits_for() {
    let state = RelayState::new("c".to_string());
    assert!(!state.can_take(&RelayEvent::ResultSent));
    assert!(!state.can_take(&RelayEvent::Read(Ok(vec![1]))));
    let (state, _) = stepped(calling(), RelayEvent::StreamOpened(Ok(())));
    assert!(state.can_take(&RelayEvent::Read(Ok(vec![0; RELAY_CHUNK_SIZE]))));
    assert!(!state.can_take(&RelayEvent::Read(Ok(vec![0; RELAY_CHUNK_SIZE + 1]))));
    assert!(state.can_take(&RelayEvent::Read(Err("gone".to_string()))));
    assert!(state.can_take(&RelayEvent::Received(Inbound::End)));
    assert!(!state.can_take(&RelayEvent::DataQueued(true)));
    assert!(!state.can_take(&RelayEvent::ReadingEnded));
}

#[test]
fn a_relay_goes_from_its_target_to_its_end() {
    let state = RelayState::new("c".to_string());
    let (state, action) = stepped(state, RelayEvent::TargetOpened(Ok(())));
    match action {
        RelayAction::SendResult(result) => {
            assert_eq!((result.channel_id.as_str(), result.success), ("c", true));
            assert_eq!(result.error, "");
        }
        other => panic!("the gateway is told first: {other:?}"),
    }
    let (state, action) = stepped(state, RelayEvent::ResultSent);
    assert!(matches!(
        action,
        RelayAction::SendFrame(RelayFrame::Init { channel_id }) if channel_id == "c"
    ));
    let (state, action) = stepped(state, RelayEvent::InitQueued(true));
    assert!(matches!(action, RelayAction::OpenStream));
    let (state, action) = stepped(state, RelayEvent::StreamOpened(Ok(())));
    assert!(matches!(action, RelayAction::Carry));

    let (state, action) = stepped(state, RelayEvent::Read(Ok(vec![7; RELAY_CHUNK_SIZE])));
    assert!(matches!(
        action,
        RelayAction::SendFrame(RelayFrame::Data(data)) if data == vec![7; RELAY_CHUNK_SIZE]
    ));
    let inbound = Inbound::Frame(RelayFrame::Data(vec![1, 2]));
    let (state, action) = stepped(state, RelayEvent::Received(inbound));
    assert!(matches!(action, RelayAction::Write(data) if data == vec![1, 2]));
    let (state, action) = stepped(state, RelayEvent::DataQueued(true));
    assert!(matches!(action, RelayAction::Read));
    let (state, action) = stepped(state, RelayEvent::Written(Ok(())));
    assert!(matches!(action, RelayAction::Receive));

    let (state, action) = stepped(state, RelayEvent::Received(Inbound::End));
    assert!(matches!(action, RelayAction::HalfClose));
    let (state, action) = stepped(state, RelayEvent::HalfClosed);
    assert!(matches!(action, RelayAction::Drain));
    let (state, action) = stepped(state, RelayEvent::Read(Ok(vec![9])));
    assert!(matches!(action, RelayAction::SendFrame(RelayFrame::Data(data)) if data == vec![9]));
    let (state, _) = stepped(state, RelayEvent::DataQueued(true));
    let (state, action) = stepped(state, RelayEvent::Read(Ok(Vec::new())));
    assert!(matches!(action, RelayAction::StopReading));
    let (_, action) = stepped(state, RelayEvent::ReadingEnded);
    assert!(matches!(action, RelayAction::Finish(Ok(()))));
}

#[test]
fn a_relay_without_a_target_opens_no_stream() {
    let state = RelayState::new("c".to_string());
    let (state, action) = stepped(state, RelayEvent::TargetOpened(Err("refused".to_string())));
    assert!(matches!(
        action,
        RelayAction::SendResult(result) if !result.success && result.error == "refused"
    ));
    let (_, action) = stepped(state, RelayEvent::ResultSent);
    assert!(matches!(action, RelayAction::Finish(Err(error)) if error == "refused"));
}

fn calling() -> RelayState {
    let state = RelayState::new("c".to_string());
    let (state, _) = stepped(state, RelayEvent::TargetOpened(Ok(())));
    let (state, _) = stepped(state, RelayEvent::ResultSent);
    stepped(state, RelayEvent::InitQueued(true)).0
}

#[test]
fn a_relay_ends_with_what_broke_it() {
    let state = RelayState::new("c".to_string());
    let (state, _) = stepped(state, RelayEvent::TargetOpened(Ok(())));
    let (state, _) = stepped(state, RelayEvent::ResultSent);
    let (_, action) = stepped(state, RelayEvent::InitQueued(false));
    assert!(matches!(
        action,
        RelayAction::Finish(Err(error)) if error == "outbound channel closed before init"
    ));

    let (_, action) = calling().step(RelayEvent::StreamOpened(Err(fault("gone", true))), false);
    assert!(matches!(
        action,
        RelayAction::Finish(Err(error)) if error == "relay_stream RPC failed: gone"
    ));
    let (_, action) = calling().step(RelayEvent::StreamOpened(Err(fault("gone", true))), true);
    assert!(matches!(action, RelayAction::Finish(Ok(()))));

    let (state, _) = stepped(calling(), RelayEvent::StreamOpened(Ok(())));
    let (state, action) = stepped(state, RelayEvent::Read(Err("reset".to_string())));
    assert!(matches!(action, RelayAction::StopReading));
    let inbound = Inbound::Frame(RelayFrame::Data(vec![1]));
    let (state, _) = stepped(state, RelayEvent::Received(inbound));
    let (state, action) = stepped(state, RelayEvent::Written(Err("full".to_string())));
    assert!(matches!(action, RelayAction::HalfClose));
    let (state, _) = stepped(state, RelayEvent::HalfClosed);
    let (_, action) = stepped(state, RelayEvent::ReadingEnded);
    assert!(matches!(
        action,
        RelayAction::Finish(Err(error)) if error == "write to target failed: full"
    ));
}

#[test]
fn the_wait_doubles_up_to_half_a_minute() {
    let mut sessions = SessionLoop::new();
    let mut waits = Vec::new();
    for attempt in 1..8_u64 {
        match sessions.session_ended("https://gw:443", "sbx-1", Err("refused".to_string())) {
            LoopAction::Retry(event, wait) => {
                assert_eq!(
                    event.message,
                    format!("supervisor session failed, reconnecting (attempt {attempt}): refused")
                );
                waits.push(wait);
            }
            LoopAction::Stop(_) => panic!("another session is tried"),
        }
    }
    assert_eq!(waits, vec![1, 2, 4, 8, 16, 30, 30]);
    assert!(matches!(
        sessions.session_ended("https://gw:443", "sbx-1", Ok(())),
        LoopAction::Stop(_)
    ));
}

fn context() -> SessionContext {
    SessionContext {
        endpoint: "https://gw:443".to_string(),
        sandbox_id: "sbx-1".to_string(),
        instance_id: "inst-1".to_string(),
        ssh_socket_path: SSH_SOCKET_PATH.to_string(),
    }
}

fn accepted(heartbeat_interval_secs: u32) -> SessionEvent {
    SessionEvent::Received(Ok(Some(GatewayMessage::SessionAccepted {
        session_id: "sess-1".to_string(),
        heartbeat_interval_secs,
    })))
}

#[test]
fn a_session_is_set_up_in_order() {
    let context = context();
    let (state, action) =
        context.step(SessionState::Connecting, SessionEvent::Connected(Ok(())), false);
    match action {
        SessionAction::SendHello { sandbox_id, instance_id } => {
            assert_eq!((sandbox_id.as_str(), instance_id.as_str()), ("sbx-1", "inst-1"));
        }
        other => panic!("a hello is sent: {other:?}"),
    }
    let (state, action) = context.step(state, SessionEvent::HelloQueued(true), false);
    assert!(matches!(action, SessionAction::OpenStream));
    let (state, action) = context.step(state, SessionEvent::StreamOpened(Ok(())), false);
    assert!(matches!(action, SessionAction::Receive));
    let (state, action) = context.step(state, accepted(2), false);
    match action {
        SessionAction::Begin { event, heartbeat_secs } => {
            assert_eq!(heartbeat_secs, 5);
            assert_eq!(
                event.message,
                "supervisor session established (session_id=sess-1, heartbeat_secs=5)"
            );
        }
        other => panic!("the session begins: {other:?}"),
    }
    let (state, action) = context.step(state, SessionEvent::HeartbeatDue, false);
    assert!(matches!(action, SessionAction::SendHeartbeat));
    let (state, _) = context.step(state, SessionEvent::HeartbeatQueued(true), false);
    let open = GatewayMessage::RelayOpen(ssh_relay_open("ch-1"));
    let (state, action) = context.step(state, SessionEvent::Received(Ok(Some(open))), false);
    assert!(matches!(
        action,
        SessionAction::Act(GatewayAction::OpenRelay(_, _))
    ));
    let (state, action) = context.step(state, SessionEvent::Received(Ok(None)), true);
    assert_eq!(state, SessionState::Ended);
    assert!(matches!(action, SessionAction::Finish(Ok(()))));
}

#[test]
fn a_session_that_breaks_says_why() {
    let context = context();
    let breaks = |state: SessionState, event: SessionEvent| {
        let (next, action) = context.step(state, event, false);
        assert_eq!(next, SessionState::Ended);
        match action {
            SessionAction::Finish(Err(reason)) => reason,
            other => panic!("the session breaks: {other:?}"),
        }
    };
    assert_eq!(
        breaks(SessionState::Connecting, SessionEvent::Connected(Err("x".to_string()))),
        "connect failed: x"
    );
    assert_eq!(
        breaks(SessionState::Greeting, SessionEvent::HelloQueued(false)),
        "failed to queue hello"
    );
    assert_eq!(
        breaks(SessionState::Opening, SessionEvent::StreamOpened(Err("x".to_string()))),
        "connect_supervisor RPC failed: x"
    );
    let rejected = GatewayMessage::SessionRejected { reason: "full".to_string() };
    assert_eq!(
        breaks(SessionState::Waiting, SessionEvent::Received(Ok(Some(rejected)))),
        "session rejected: full"
    );
    assert_eq!(
        breaks(
            SessionState::Waiting,
            SessionEvent::Received(Ok(Some(GatewayMessage::Heartbeat)))
        ),
        "expected SessionAccepted or SessionRejected"
    );
    assert_eq!(
        breaks(SessionState::Waiting, SessionEvent::Received(Ok(None))),
        "stream closed before session accepted"
    );
    assert_eq!(
        breaks(SessionState::Running, SessionEvent::Received(Ok(None))),
        "gateway closed stream"
    );
    assert_eq!(
        breaks(SessionState::Running, SessionEvent::Received(Err(fault("x", true)))),
        "stream error: x"
    );
    assert_eq!(
        breaks(SessionState::Running, SessionEvent::HeartbeatQueued(false)),
        "outbound channel closed"
    );
    let (next, action) =
        context.step(SessionState::Connecting, SessionEvent::HeartbeatDue, false);
    assert_eq!(next, SessionState::Connecting);
    assert!(matches!(action, SessionAction::Receive));
}

#[test]
fn gateway_messages_ask_for_what_they_say() {
    assert!(matches!(
        handle_gateway_message(GatewayMessage::Heartbeat, SSH_SOCKET_PATH),
        GatewayAction::Nothing
    ));
    assert!(matches!(
        handle_gateway_message(GatewayMessage::Other, SSH_SOCKET_PATH),
        GatewayAction::Unexpected
    ));
    let close = GatewayMessage::RelayClose {
        channel_id: "ch-1".to_string(),
        reason: "done".to_string(),
    };
    match handle_gateway_message(close, SSH_SOCKET_PATH) {
        GatewayAction::Report(event) => assert_eq!(
            event.message,
            "relay close from gateway (channel_id=ch-1, reason=done)"
        ),
        other => panic!("the close is reported: {other:?}"),
    }
}

fn address(text: &str) -> Option<String> {
    IpAddress::parse(text).map(|a| a.describe())
}

#[test]
fn ip_addresses_are_read_and_written() {
    for text in ["0.0.0.0", "127.0.0.1", "255.255.255.255", "10.20.30.40"] {
        assert_eq!(address(text).as_deref(), Some(text));
    }
    for text in ["", "1.2.3", "1.2.3.4.5", "256.0.0.1", "01.2.3.4", "1.2.3.+4", "1..2.3", "a.b.c.d"] {
        assert_eq!(address(text), None, "{text}");
    }
    for (text, shown) in [
        ("::", "::"),
        ("::1", "::1"),
        ("0:0:0:0:0:0:0:1", "::1"),
        ("1::", "1::"),
        ("2001:DB8:0:0:1:0:0:1", "2001:db8::1:0:0:1"),
        ("2001:db8:0:1:1:1:1:1", "2001:db8:0:1:1:1:1:1"),
        ("1:0:0:2:0:0:0:3", "1:0:0:2::3"),
        ("::ffff:10.0.0.1", "::ffff:10.0.0.1"),
        ("::10.0.0.1", "::a00:1"),
        ("1:2:3:4:5:6:7.8.9.10", "1:2:3:4:5:6:708:90a"),
        ("1:2:3:4:5:6:7::", "1:2:3:4:5:6:7:0"),
        ("::2:3:4:5:6:7:8", "0:2:3:4:5:6:7:8"),
    ] {
        assert_eq!(address(text).as_deref(), Some(shown), "{text}");
    }
    for text in [
        ":", ":::", "1", "1:2:3:4:5:6:7", "1:2:3:4:5:6:7:8:9", "1::2::3", "12345::", "g::",
        "1:2:3:4:5:6:7:8::", "::1:2:3:4:5:6:7:8", "1.2.3.4::", "::1.2.3.4:5", "[::1]", "fe80::1%eth0",
        "1:2:3:4:5:6:7:1.2.3.4", ":1:2:3:4:5:6:7", "1:2:3:4:5:6:7:",
    ] {
        assert_eq!(address(text), None, "{text}");
    }
    assert!(IpAddress::parse("127.255.0.1").unwrap().is_loopback());
    assert!(!IpAddress::parse("126.0.0.1").unwrap().is_loopback());
    assert!(IpAddress::parse("::1").unwrap().is_loopback());
    assert!(!IpAddress::parse("::ffff:127.0.0.1").unwrap().is_loopback());
}

#[test]
fn hosts_are_reported_by_address_or_by_name() {
    let end = host_endpoint(" 0:0:0:0:0:0:0:1 ", 80);
    assert_eq!(end.ip.as_deref(), Some("::1"));
    assert!(end.domain.is_none());
    let end = host_endpoint("web.local", 81);
    assert_eq!(end.domain.as_deref(), Some("web.local"));
    assert_eq!(end.port, Some(81));
}
