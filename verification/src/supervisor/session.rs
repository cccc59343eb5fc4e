//! The session with the gateway: how it is kept up, and what the gateway's messages ask for.

use vstd::prelude::*;
use vstd::arithmetic::power2::pow2;
use crate::supervisor::event;
use crate::supervisor::event::{
    gateway_end, reports_closed, reports_failed, ActivityId, NetworkEvent, SeverityId, StatusId,
};
use crate::supervisor::relay;
use crate::supervisor::relay::{
    reports_gateway_close, reports_open, RelayOpen, StreamFault,
};
use crate::text::{decimal_of, together};

verus! {

/// The first wait before a session is tried again, in seconds.
pub const INITIAL_BACKOFF: u64 = 1;

/// The longest wait, in seconds.
pub const MAX_BACKOFF: u64 = 30;

/// The shortest interval between heartbeats, in seconds.
pub const MIN_HEARTBEAT: u32 = 5;

/// A message of a stream that must go on, or why it does not.
pub open spec fn stream_message<T>(
    message: Result<Option<T>, StreamFault>,
    eof_error: Seq<char>,
    result: Result<T, String>,
) -> bool {
    match message {
        Ok(Some(msg)) => result == Ok::<T, String>(msg),
        Ok(None) => result matches Err(e) && e@ == eof_error,
        Err(fault) => result matches Err(e) && e@ == "stream error: "@ + fault.status@,
    }
}

/// A message of a stream that must go on, or why it does not.
pub fn map_stream_message<T>(message: Result<Option<T>, StreamFault>, eof_error: &str) -> (result:
    Result<T, String>)
    ensures
        stream_message(message, eof_error@, result),
{
    match message {
        Ok(Some(msg)) => Ok(msg),
        Ok(None) => Err(eof_error.to_string()),
        Err(fault) => Err(together("stream error: ", fault.status.as_str())),
    }
}

/// What a session's stream gives: a message, or its end because this supervisor shuts down.
#[derive(Debug)]
pub enum SessionStreamMessage<T> {
    Message(T),
    ExpectedShutdownClose,
}

/// A message of a session's stream, or why there is none: the end of the stream is in order while
/// this supervisor shuts down.
pub open spec fn session_message<T>(
    message: Result<Option<T>, StreamFault>,
    eof_error: Seq<char>,
    terminating: bool,
    result: Result<SessionStreamMessage<T>, String>,
) -> bool {
    match message {
        Ok(Some(msg)) => result == Ok::<SessionStreamMessage<T>, String>(
            SessionStreamMessage::Message(msg),
        ),
        Ok(None) => if terminating {
            result == Ok::<SessionStreamMessage<T>, String>(
                SessionStreamMessage::ExpectedShutdownClose,
            )
        } else {
            result matches Err(e) && e@ == eof_error
        },
        Err(fault) => if fault.shutdown(terminating) {
            result == Ok::<SessionStreamMessage<T>, String>(
                SessionStreamMessage::ExpectedShutdownClose,
            )
        } else {
            result matches Err(e) && e@ == "stream error: "@ + fault.status@
        },
    }
}

/// Like [`map_stream_message`], where the end of the stream is in order while this supervisor
/// shuts down.
pub fn map_session_stream_message<T>(
    message: Result<Option<T>, StreamFault>,
    eof_error: &str,
    terminating: bool,
) -> (result: Result<SessionStreamMessage<T>, String>)
    ensures
        session_message(message, eof_error@, terminating, result),
{
    match message {
        Ok(Some(msg)) => Ok(SessionStreamMessage::Message(msg)),
        Ok(None) => if terminating {
            Ok(SessionStreamMessage::ExpectedShutdownClose)
        } else {
            Err(eof_error.to_string())
        },
        Err(fault) => if relay::expected_transport_close_during_shutdown(&fault, terminating) {
            Ok(SessionStreamMessage::ExpectedShutdownClose)
        } else {
            Err(together("stream error: ", fault.status.as_str()))
        },
    }
}

/// How often a session was tried, and how long the next wait is.
#[derive(Debug)]
pub struct SessionLoop {
    pub attempt: u64,
    pub backoff_secs: u64,
}

/// What follows when a session has ended.
#[derive(Debug)]
pub enum LoopAction {
    /// It ended in order: this is reported, and no other is tried.
    Stop(NetworkEvent),
    /// It failed: this is reported, and another is tried after a wait in seconds.
    Retry(NetworkEvent, u64),
}

/// The wait after one of `secs` seconds: twice as long, up to the longest.
pub open spec fn next_backoff(secs: u64) -> u64 {
    if 2 * secs <= MAX_BACKOFF {
        (2 * secs) as u64
    } else {
        MAX_BACKOFF
    }
}

impl SessionLoop {
    /// Whether the wait is within its bounds.
    pub open spec fn wf(self) -> bool {
        INITIAL_BACKOFF <= self.backoff_secs <= MAX_BACKOFF
    }

    /// Before the first session.
    pub fn new() -> (it: Self)
        ensures
            it.attempt == 0,
            it.backoff_secs == INITIAL_BACKOFF,
            it.wf(),
    {
        SessionLoop { attempt: 0, backoff_secs: INITIAL_BACKOFF }
    }

    /// What follows from the end of one more session: `after` is then how far the loop is, and
    /// `action` is what comes next.
    pub open spec fn takes_end(
        self,
        endpoint: Seq<char>,
        sandbox_id: Seq<char>,
        outcome: Result<(), String>,
        after: SessionLoop,
        action: LoopAction,
    ) -> bool {
        &&& after.attempt == self.attempt + 1
        &&& match outcome {
            Ok(()) => {
                &&& action matches LoopAction::Stop(event)
                &&& reports_closed(event, endpoint, sandbox_id)
                &&& after.backoff_secs == self.backoff_secs
            },
            Err(error) => {
                &&& action matches LoopAction::Retry(event, wait)
                &&& reports_failed(event, endpoint, (self.attempt + 1) as u64, error@)
                &&& wait == self.backoff_secs
                &&& after.backoff_secs == next_backoff(self.backoff_secs)
            },
        }
    }

    /// Takes the end of one more session.
    pub fn session_ended(&mut self, endpoint: &str, sandbox_id: &str, outcome: Result<(), String>) -> (action:
        LoopAction)
        requires
            old(self).wf(),
            old(self).attempt < u64::MAX,
        ensures
            final(self).wf(),
            old(self).takes_end(endpoint@, sandbox_id@, outcome, *final(self), action),
    {
        self.attempt = self.attempt + 1;
        match outcome {
            Ok(()) => LoopAction::Stop(event::session_closed_event(endpoint, sandbox_id)),
            Err(error) => {
                let event = event::session_failed_event(endpoint, self.attempt, error.as_str());
                let wait: u64 = self.backoff_secs;
                self.backoff_secs = if wait * 2 <= MAX_BACKOFF {
                    wait * 2
                } else {
                    MAX_BACKOFF
                };
                LoopAction::Retry(event, wait)
            },
        }
    }
}

/// The wait after `n` failures.
pub open spec fn backoff_after(n: nat) -> u64
    decreases n,
{
    if n == 0 {
        INITIAL_BACKOFF
    } else {
        next_backoff(backoff_after((n - 1) as nat))
    }
}

/// The wait doubles with every failure until it is as long as it gets.
pub proof fn lemma_backoff_doubles(n: nat)
    ensures
        backoff_after(n) == if pow2(n) <= MAX_BACKOFF {
            pow2(n) as u64
        } else {
            MAX_BACKOFF
        },
        INITIAL_BACKOFF <= backoff_after(n) <= MAX_BACKOFF,
    decreases n,
{
    if n == 0 {
        vstd::arithmetic::power2::lemma2_to64();
    } else {
        lemma_backoff_doubles((n - 1) as nat);
        vstd::arithmetic::power2::lemma_pow2_unfold(n);
        vstd::arithmetic::power2::lemma_pow2_pos((n - 1) as nat);
    }
}

/// What the gateway says.
#[derive(Debug)]
pub enum GatewayMessage {
    SessionAccepted { session_id: String, heartbeat_interval_secs: u32 },
    SessionRejected { reason: String },
    Heartbeat,
    RelayOpen(RelayOpen),
    RelayClose { channel_id: String, reason: String },
    /// Anything else, or nothing.
    Other,
}

/// What a message of the gateway asks for, once the session stands.
#[derive(Debug)]
pub enum GatewayAction {
    /// Nothing.
    Nothing,
    /// Report this, and open a relay.
    OpenRelay(NetworkEvent, RelayOpen),
    /// Report this.
    Report(NetworkEvent),
    /// The message is not expected here.
    Unexpected,
}

/// Whether `action` is what `message` asks for.
pub open spec fn asked(message: GatewayMessage, ssh_socket_path: Seq<char>, action: GatewayAction) -> bool {
    match message {
        GatewayMessage::Heartbeat => action is Nothing,
        GatewayMessage::RelayOpen(open) => {
            &&& action matches GatewayAction::OpenRelay(event, o)
            &&& o == open
            &&& reports_open(event, open, ssh_socket_path)
        },
        GatewayMessage::RelayClose { channel_id, reason } => {
            &&& action matches GatewayAction::Report(event)
            &&& reports_gateway_close(event, channel_id@, reason@)
        },
        _ => action is Unexpected,
    }
}

/// What a message of the gateway asks for, once the session stands.
pub fn handle_gateway_message(message: GatewayMessage, ssh_socket_path: &str) -> (action:
    GatewayAction)
    ensures
        asked(message, ssh_socket_path@, action),
{
    match message {
        GatewayMessage::Heartbeat => GatewayAction::Nothing,
        GatewayMessage::RelayOpen(open) => {
            let event = relay::relay_open_event(&open, ssh_socket_path);
            GatewayAction::OpenRelay(event, open)
        },
        GatewayMessage::RelayClose { channel_id, reason } => GatewayAction::Report(
            relay::relay_close_from_gateway_event(channel_id.as_str(), reason.as_str()),
        ),
        _ => GatewayAction::Unexpected,
    }
}

/// How far a session has come.
#[derive(Debug, Clone, Copy, PartialEq, Eq, Structural)]
pub enum SessionState {
    /// The gateway is being reached.
    Connecting,
    /// The supervisor's hello is being sent.
    Greeting,
    /// The stream is being opened.
    Opening,
    /// The gateway has not yet taken the session.
    Waiting,
    /// The session stands.
    Running,
    /// It has ended.
    Ended,
}

/// What comes back from outside.
#[derive(Debug)]
pub enum SessionEvent {
    /// Whether the gateway was reached.
    Connected(Result<(), String>),
    /// Whether the hello could be queued.
    HelloQueued(bool),
    /// Whether the stream was opened.
    StreamOpened(Result<(), String>),
    /// What the stream gave.
    Received(Result<Option<GatewayMessage>, StreamFault>),
    /// It is time for a heartbeat.
    HeartbeatDue,
    /// Whether a heartbeat could be queued.
    HeartbeatQueued(bool),
}

/// What is to be done next.
#[derive(Debug)]
pub enum SessionAction {
    /// Queue a hello from this sandbox and this instance.
    SendHello { sandbox_id: String, instance_id: String },
    /// Open the stream.
    OpenStream,
    /// Wait for what the stream gives.
    Receive,
    /// Report that the session stands, and send a heartbeat every so many seconds.
    Begin { event: NetworkEvent, heartbeat_secs: u32 },
    /// Queue a heartbeat.
    SendHeartbeat,
    /// Do what the gateway asks for.
    Act(GatewayAction),
    /// The session has ended.
    Finish(Result<(), String>),
}

/// The interval of heartbeats: the gateway's, but not too short a one.
pub open spec fn heartbeat_interval(secs: u32) -> u32 {
    if secs < MIN_HEARTBEAT {
        MIN_HEARTBEAT
    } else {
        secs
    }
}

/// Whether a session ends with `message`.
pub open spec fn breaks(next: SessionState, action: SessionAction, message: Seq<char>) -> bool {
    next is Ended && (action matches SessionAction::Finish(Err(e)) && e@ == message)
}

/// Whose session it is.
#[derive(Debug)]
pub struct SessionContext {
    pub endpoint: String,
    pub sandbox_id: String,
    pub instance_id: String,
    pub ssh_socket_path: String,
}

impl SessionContext {
    /// Whether the session stands after the gateway has taken it.
    pub open spec fn begins(
        self,
        session_id: Seq<char>,
        secs: u32,
        next: SessionState,
        action: SessionAction,
    ) -> bool {
        &&& next is Running
        &&& action matches SessionAction::Begin { event, heartbeat_secs }
        &&& heartbeat_secs == heartbeat_interval(secs)
        &&& event.activity == ActivityId::Open
        &&& event.severity == SeverityId::Informational
        &&& event.status == Some(StatusId::Success)
        &&& event.dst_endpoint matches Some(end) && end.is(gateway_end(self.endpoint@))
        &&& event.connection_info is None
        &&& event.message@ == "supervisor session established (session_id="@ + session_id
            + ", heartbeat_secs="@ + decimal_of(heartbeat_interval(secs) as nat) + ")"@
    }

    /// What follows when the gateway answers the hello.
    pub open spec fn answered(
        self,
        message: Result<Option<GatewayMessage>, StreamFault>,
        next: SessionState,
        action: SessionAction,
    ) -> bool {
        match message {
            Ok(Some(GatewayMessage::SessionAccepted { session_id, heartbeat_interval_secs })) =>
                self.begins(session_id@, heartbeat_interval_secs, next, action),
            Ok(Some(GatewayMessage::SessionRejected { reason })) => breaks(
                next,
                action,
                "session rejected: "@ + reason@,
            ),
            Ok(Some(_)) => breaks(
                next,
                action,
                "expected SessionAccepted or SessionRejected"@,
            ),
            Ok(None) => breaks(next, action, "stream closed before session accepted"@),
            Err(fault) => breaks(next, action, "stream error: "@ + fault.status@),
        }
    }

    /// What follows when the gateway says something in a session that stands.
    pub open spec fn told(
        self,
        message: Result<Option<GatewayMessage>, StreamFault>,
        terminating: bool,
        next: SessionState,
        action: SessionAction,
    ) -> bool {
        match message {
            Ok(Some(message)) => {
                &&& next is Running
                &&& action matches SessionAction::Act(act)
                &&& asked(message, self.ssh_socket_path@, act)
            },
            Ok(None) => if terminating {
                next is Ended && action == SessionAction::Finish(Ok::<(), String>(()))
            } else {
                breaks(next, action, "gateway closed stream"@)
            },
            Err(fault) => if fault.shutdown(terminating) {
                next is Ended && action == SessionAction::Finish(Ok::<(), String>(()))
            } else {
                breaks(next, action, "stream error: "@ + fault.status@)
            },
        }
    }

    /// What follows when `event` comes back in `state`.
    pub open spec fn follows(
        self,
        state: SessionState,
        event: SessionEvent,
        terminating: bool,
        next: SessionState,
        action: SessionAction,
    ) -> bool {
        match (state, event) {
            (SessionState::Connecting, SessionEvent::Connected(outcome)) => match outcome {
                Ok(()) => {
                    &&& next is Greeting
                    &&& action matches SessionAction::SendHello { sandbox_id, instance_id }
                    &&& sandbox_id@ == self.sandbox_id@
                    &&& instance_id@ == self.instance_id@
                },
                Err(reason) => breaks(next, action, "connect failed: "@ + reason@),
            },
            (SessionState::Greeting, SessionEvent::HelloQueued(queued)) => if queued {
                next is Opening && action is OpenStream
            } else {
                breaks(next, action, "failed to queue hello"@)
            },
            (SessionState::Opening, SessionEvent::StreamOpened(outcome)) => match outcome {
                Ok(()) => next is Waiting && action is Receive,
                Err(reason) => breaks(
                    next,
                    action,
                    "connect_supervisor RPC failed: "@ + reason@,
                ),
            },
            (SessionState::Waiting, SessionEvent::Received(message)) => self.answered(
                message,
                next,
                action,
            ),
            (SessionState::Running, SessionEvent::Received(message)) => self.told(
                message,
                terminating,
                next,
                action,
            ),
            (SessionState::Running, SessionEvent::HeartbeatDue) => next is Running
                && action is SendHeartbeat,
            (SessionState::Running, SessionEvent::HeartbeatQueued(queued)) => if queued {
                next is Running && action is Receive
            } else {
                breaks(next, action, "outbound channel closed"@)
            },
            _ => next == state && action is Receive,
        }
    }

    fn fail(message: String) -> (step: (SessionState, SessionAction))
        ensures
            breaks(step.0, step.1, message@),
    {
        (SessionState::Ended, SessionAction::Finish(Err(message)))
    }

    fn answer(&self, message: Result<Option<GatewayMessage>, StreamFault>) -> (step: (
        SessionState,
        SessionAction,
    ))
        ensures
            self.answered(message, step.0, step.1),
    {
        match map_stream_message(message, "stream closed before session accepted") {
            Ok(GatewayMessage::SessionAccepted { session_id, heartbeat_interval_secs }) => {
                let heartbeat_secs: u32 = if heartbeat_interval_secs < MIN_HEARTBEAT {
                    MIN_HEARTBEAT
                } else {
                    heartbeat_interval_secs
                };
                let event = event::session_established_event(
                    self.endpoint.as_str(),
                    session_id.as_str(),
                    heartbeat_secs,
                );
                (SessionState::Running, SessionAction::Begin { event, heartbeat_secs })
            },
            Ok(GatewayMessage::SessionRejected { reason }) => SessionContext::fail(
                together("session rejected: ", reason.as_str()),
            ),
            Ok(_) => SessionContext::fail(
                "expected SessionAccepted or SessionRejected".to_string(),
            ),
            Err(error) => SessionContext::fail(error),
        }
    }

    fn tell(&self, message: Result<Option<GatewayMessage>, StreamFault>, terminating: bool) -> (step: (
        SessionState,
        SessionAction,
    ))
        ensures
            self.told(message, terminating, step.0, step.1),
    {
        match map_session_stream_message(message, "gateway closed stream", terminating) {
            Ok(SessionStreamMessage::Message(message)) => (
                SessionState::Running,
                SessionAction::Act(handle_gateway_message(message, self.ssh_socket_path.as_str())),
            ),
            Ok(SessionStreamMessage::ExpectedShutdownClose) => (
                SessionState::Ended,
                SessionAction::Finish(Ok(())),
            ),
            Err(error) => SessionContext::fail(error),
        }
    }

    /// Takes what came back from outside, and says what is to be done next. What belongs to
    /// another state changes nothing.
    pub fn step(&self, state: SessionState, event: SessionEvent, terminating: bool) -> (step: (
        SessionState,
        SessionAction,
    ))
        ensures
            self.follows(state, event, terminating, step.0, step.1),
    {
        match (state, event) {
            (SessionState::Connecting, SessionEvent::Connected(outcome)) => match outcome {
                Ok(()) => (
                    SessionState::Greeting,
                    SessionAction::SendHello {
                        sandbox_id: self.sandbox_id.clone(),
                        instance_id: self.instance_id.clone(),
                    },
                ),
                Err(reason) => SessionContext::fail(together("connect failed: ", reason.as_str())),
            },
            (SessionState::Greeting, SessionEvent::HelloQueued(queued)) => if queued {
                (SessionState::Opening, SessionAction::OpenStream)
            } else {
                SessionContext::fail("failed to queue hello".to_string())
            },
            (SessionState::Opening, SessionEvent::StreamOpened(outcome)) => match outcome {
                Ok(()) => (SessionState::Waiting, SessionAction::Receive),
                Err(reason) => SessionContext::fail(
                    together("connect_supervisor RPC failed: ", reason.as_str()),
                ),
            },
            (SessionState::Waiting, SessionEvent::Received(message)) => self.answer(message),
            (SessionState::Running, SessionEvent::Received(message)) => self.tell(
                message,
                terminating,
            ),
            (SessionState::Running, SessionEvent::HeartbeatDue) => (
                SessionState::Running,
                SessionAction::SendHeartbeat,
            ),
            (SessionState::Running, SessionEvent::HeartbeatQueued(queued)) => if queued {
                (SessionState::Running, SessionAction::Receive)
            } else {
                SessionContext::fail("outbound channel closed".to_string())
            },
            (state, _) => (state, SessionAction::Receive),
        }
    }

    /// Relays are opened in no session but one that the gateway has taken.
    pub proof fn lemma_relays_need_a_session(
        self,
        state: SessionState,
        event: SessionEvent,
        terminating: bool,
        next: SessionState,
        action: SessionAction,
    )
        requires
            self.follows(state, event, terminating, next, action),
        ensures
            action is Act ==> state is Running && next is Running,
            next is Running && !(state is Running) ==> state is Waiting && (event matches
                SessionEvent::Received(Ok(Some(message))) && message is SessionAccepted),
    {
    }

    /// A session ends in order only while this supervisor shuts down; any other end is tried
    /// again.
    pub proof fn lemma_clean_end_is_a_shutdown(
        self,
        state: SessionState,
        event: SessionEvent,
        terminating: bool,
        next: SessionState,
        action: SessionAction,
    )
        requires
            self.follows(state, event, terminating, next, action),
        ensures
            action matches SessionAction::Finish(outcome) ==> (outcome is Ok ==> terminating),
    {
    }

    /// A heartbeat is sent when one is due in a session that stands, and at no other time. One
    /// that was queued leads back to the stream, and one that could not be ends the session.
    pub proof fn lemma_heartbeats_are_sent_when_due(
        self,
        state: SessionState,
        event: SessionEvent,
        terminating: bool,
        next: SessionState,
        action: SessionAction,
    )
        requires
            self.follows(state, event, terminating, next, action),
        ensures
            action is SendHeartbeat <==> state is Running && event is HeartbeatDue,
            action is SendHeartbeat ==> next is Running,
            state is Running && event == SessionEvent::HeartbeatQueued(true) ==> next is Running
                && action is Receive,
            state is Running && event == SessionEvent::HeartbeatQueued(false) ==> next is Ended && (
            action matches SessionAction::Finish(Err(reason)) && reason@
                == "outbound channel closed"@),
    {
    }

    /// A session goes through its stages in one order, each stage entered by what the one before
    /// it waits for: the gateway is reached, the hello is queued, the stream is opened, and the
    /// gateway takes the session.
    pub proof fn lemma_stages_follow_each_other(
        self,
        state: SessionState,
        event: SessionEvent,
        terminating: bool,
        next: SessionState,
        action: SessionAction,
    )
        requires
            self.follows(state, event, terminating, next, action),
        ensures
            action is SendHello <==> state is Connecting && (event matches SessionEvent::Connected(
                reached,
            ) && reached is Ok),
            action is SendHello ==> next is Greeting,
            action matches SessionAction::SendHello { sandbox_id, instance_id } ==> sandbox_id@
                == self.sandbox_id@ && instance_id@ == self.instance_id@,
            action is OpenStream <==> state is Greeting && event == SessionEvent::HelloQueued(true),
            action is OpenStream ==> next is Opening,
            next is Waiting && !(state is Waiting) <==> state is Opening && (event matches
                SessionEvent::StreamOpened(opened) && opened is Ok),
            action is Begin <==> state is Waiting && (event matches SessionEvent::Received(
                Ok(Some(message)),
            ) && message is SessionAccepted),
            action is Begin ==> next is Running,
            action is Act <==> state is Running && (event matches SessionEvent::Received(
                Ok(Some(_)),
            )),
            action is Act ==> next is Running,
            action is Finish <==> next is Ended && !(state is Ended),
            next.stage() >= state.stage(),
            next.stage() == state.stage() && !(state is Running) ==> action is Receive,
    {
    }

    /// Heartbeats are sent as often as the gateway asks for, but never more often than every
    /// five seconds.
    pub proof fn lemma_heartbeats_keep_their_distance(
        self,
        state: SessionState,
        event: SessionEvent,
        terminating: bool,
        next: SessionState,
        action: SessionAction,
    )
        requires
            self.follows(state, event, terminating, next, action),
        ensures
            action matches SessionAction::Begin { heartbeat_secs, .. } ==> (event matches
                SessionEvent::Received(
                Ok(Some(GatewayMessage::SessionAccepted { heartbeat_interval_secs, .. })),
            ) && heartbeat_secs >= 5 && heartbeat_secs >= heartbeat_interval_secs && (
            heartbeat_interval_secs >= 5 ==> heartbeat_secs == heartbeat_interval_secs) && (
            heartbeat_interval_secs < 5 ==> heartbeat_secs == 5)),
    {
    }

    /// In a session that stands, each message of the gateway is answered by what it asks for: the
    /// relay that it names is opened, the one that it closes is reported, a heartbeat asks for
    /// nothing, and anything else is out of place.
    pub proof fn lemma_messages_are_acted_upon(
        self,
        message: GatewayMessage,
        terminating: bool,
        next: SessionState,
        action: SessionAction,
    )
        requires
            self.follows(
                SessionState::Running,
                SessionEvent::Received(Ok(Some(message))),
                terminating,
                next,
                action,
            ),
        ensures
            next is Running,
            message matches GatewayMessage::RelayOpen(open) ==> (action matches SessionAction::Act(
                GatewayAction::OpenRelay(_, opened),
            ) && opened == open),
            message is RelayClose ==> (action matches SessionAction::Act(GatewayAction::Report(_))),
            message is Heartbeat ==> action == SessionAction::Act(GatewayAction::Nothing),
            message is SessionAccepted || message is SessionRejected || message is Other ==> action
                == SessionAction::Act(GatewayAction::Unexpected),
            (action matches SessionAction::Act(GatewayAction::OpenRelay(_, _))) ==> message is RelayOpen,
            (action matches SessionAction::Act(GatewayAction::Report(_))) ==> message is RelayClose,
    {
    }

    /// While this supervisor shuts down the end of the stream ends a session in order; otherwise
    /// it is an error, and so is every fault before the session stands.
    pub proof fn lemma_ends_say_what_went_wrong(
        self,
        state: SessionState,
        event: SessionEvent,
        terminating: bool,
        next: SessionState,
        action: SessionAction,
    )
        requires
            self.follows(state, event, terminating, next, action),
        ensures
            action matches SessionAction::Finish(Ok(())) ==> state is Running && event is Received
                && terminating,
            state is Running && event == SessionEvent::Received(Ok(None)) && terminating ==> action
                == SessionAction::Finish(Ok::<(), String>(())),
            action matches SessionAction::Finish(Err(reason)) ==> match event {
                SessionEvent::Connected(outcome) => state is Connecting && outcome is Err && reason@
                    == "connect failed: "@ + outcome->Err_0@,
                SessionEvent::HelloQueued(queued) => state is Greeting && !queued && reason@
                    == "failed to queue hello"@,
                SessionEvent::StreamOpened(outcome) => state is Opening && outcome is Err && reason@
                    == "connect_supervisor RPC failed: "@ + outcome->Err_0@,
                SessionEvent::Received(Err(fault)) => (state is Waiting || state is Running)
                    && reason@ == "stream error: "@ + fault.status@,
                SessionEvent::Received(Ok(None)) => {
                    ||| state is Waiting && reason@ == "stream closed before session accepted"@
                    ||| state is Running && !terminating && reason@ == "gateway closed stream"@
                },
                SessionEvent::Received(Ok(Some(GatewayMessage::SessionRejected { reason: why }))) =>
                    state is Waiting && reason@ == "session rejected: "@ + why@,
                SessionEvent::Received(Ok(Some(message))) => state is Waiting
                    && !(message is SessionAccepted) && reason@
                    == "expected SessionAccepted or SessionRejected"@,
                SessionEvent::HeartbeatQueued(queued) => state is Running && !queued && reason@
                    == "outbound channel closed"@,
                SessionEvent::HeartbeatDue => false,
            },
            (state is Connecting && (event matches SessionEvent::Connected(outcome) && outcome is Err))
                || (state is Greeting && event == SessionEvent::HelloQueued(false)) || (
            state is Opening && (event matches SessionEvent::StreamOpened(outcome) && outcome is Err))
                || (state is Waiting && (event matches SessionEvent::Received(given) && !(given matches
                Ok(Some(message)) && message is SessionAccepted))) || (state is Running && event
                == SessionEvent::Received(Ok(None)) && !terminating) ==> (action matches
                SessionAction::Finish(Err(_))),
    {
    }

    /// What a session is asked along a course: each event comes back in the state that the one
    /// before it left.
    pub open spec fn courses(
        self,
        events: Seq<SessionEvent>,
        terminating: Seq<bool>,
        states: Seq<SessionState>,
        actions: Seq<SessionAction>,
    ) -> bool {
        &&& terminating.len() == events.len()
        &&& actions.len() == events.len()
        &&& states.len() == events.len() + 1
        &&& forall|i: int|
            0 <= i < events.len() ==> #[trigger] self.follows(
                states[i],
                events[i],
                terminating[i],
                states[i + 1],
                actions[i],
            )
    }

    /// Along any course no more heartbeats are sent than times that one was due, and one hello at
    /// the most.
    pub proof fn lemma_no_more_heartbeats_than_ticks(
        self,
        events: Seq<SessionEvent>,
        terminating: Seq<bool>,
        states: Seq<SessionState>,
        actions: Seq<SessionAction>,
    )
        requires
            self.courses(events, terminating, states, actions),
        ensures
            heartbeats_sent(actions) <= heartbeats_due(events),
            hellos_sent(actions) <= if states.last() is Connecting {
                0int
            } else {
                1int
            },
        decreases events.len(),
    {
        if events.len() > 0 {
            let n = events.len() - 1;
            let before = states.drop_last();
            assert(self.courses(
                events.drop_last(),
                terminating.drop_last(),
                before,
                actions.drop_last(),
            )) by {
                assert forall|i: int| 0 <= i < n implies #[trigger] self.follows(
                    before[i],
                    events.drop_last()[i],
                    terminating.drop_last()[i],
                    before[i + 1],
                    actions.drop_last()[i],
                ) by {
                    assert(self.follows(
                        states[i],
                        events[i],
                        terminating[i],
                        states[i + 1],
                        actions[i],
                    ));
                }
            }
            self.lemma_no_more_heartbeats_than_ticks(
                events.drop_last(),
                terminating.drop_last(),
                before,
                actions.drop_last(),
            );
            assert(self.follows(states[n], events[n], terminating[n], states[n + 1], actions[n]));
            self.lemma_heartbeats_are_sent_when_due(
                states[n],
                events[n],
                terminating[n],
                states[n + 1],
                actions[n],
            );
            self.lemma_stages_follow_each_other(
                states[n],
                events[n],
                terminating[n],
                states[n + 1],
                actions[n],
            );
        }
    }
}

impl SessionState {
    /// How many stages come before this one.
    pub open spec fn stage(self) -> int {
        match self {
            SessionState::Connecting => 0,
            SessionState::Greeting => 1,
            SessionState::Opening => 2,
            SessionState::Waiting => 3,
            SessionState::Running => 4,
            SessionState::Ended => 5,
        }
    }
}

/// How often a heartbeat was due.
pub open spec fn heartbeats_due(events: Seq<SessionEvent>) -> int
    decreases events.len(),
{
    if events.len() == 0 {
        0
    } else {
        heartbeats_due(events.drop_last()) + if events.last() is HeartbeatDue {
            1int
        } else {
            0int
        }
    }
}

/// How often a heartbeat was sent.
pub open spec fn heartbeats_sent(actions: Seq<SessionAction>) -> int
    decreases actions.len(),
{
    if actions.len() == 0 {
        0
    } else {
        heartbeats_sent(actions.drop_last()) + if actions.last() is SendHeartbeat {
            1int
        } else {
            0int
        }
    }
}

/// How often a hello was sent.
pub open spec fn hellos_sent(actions: Seq<SessionAction>) -> int
    decreases actions.len(),
{
    if actions.len() == 0 {
        0
    } else {
        hellos_sent(actions.drop_last()) + if actions.last() is SendHello {
            1int
        } else {
            0int
        }
    }
}

/// A session that failed is tried again after one second, and after each further failure after
/// twice as long, but never after more than thirty seconds.
pub proof fn lemma_waits_stay_within_half_a_minute(n: nat)
    ensures
        backoff_after(0) == 1,
        1 <= backoff_after(n) <= 30,
        backoff_after(n) <= 15 ==> backoff_after(n + 1) == 2 * backoff_after(n),
        backoff_after(n) >= 15 ==> backoff_after(n + 1) == 30,
    decreases n,
{
    if n > 0 {
        lemma_waits_stay_within_half_a_minute((n - 1) as nat);
    }
    assert(backoff_after(n + 1) == next_backoff(backoff_after(n)));
}

/// A session that failed is tried again, and one that ended in order is the last. The wait before
/// the next is the one that was due, and the one after it is twice as long but never above half a
/// minute; every end counts as one more attempt.
pub proof fn lemma_failed_sessions_are_tried_again(
    before: SessionLoop,
    endpoint: Seq<char>,
    sandbox_id: Seq<char>,
    outcome: Result<(), String>,
    after: SessionLoop,
    action: LoopAction,
)
    requires
        before.wf(),
        before.takes_end(endpoint, sandbox_id, outcome, after, action),
    ensures
        outcome is Err <==> action is Retry,
        outcome is Ok <==> action is Stop,
        action matches LoopAction::Retry(event, wait) ==> {
            &&& wait == before.backoff_secs
            &&& 1 <= wait <= 30
            &&& wait <= 15 ==> after.backoff_secs == 2 * wait
            &&& wait > 15 ==> after.backoff_secs == 30
        },
        action is Stop ==> after.backoff_secs == before.backoff_secs,
        after.attempt - before.attempt == 1,
{
}

/// A message that a session's stream gives is handed on as it is, whether or not this supervisor
/// shuts down. The end of the stream is in order only while it shuts down; a fault is, only where
/// it is also what a shutdown looks like. Anything else says what went wrong.
pub proof fn lemma_streams_end_in_order_only_at_shutdown<T>(
    message: Result<Option<T>, StreamFault>,
    eof_error: Seq<char>,
    terminating: bool,
    result: Result<SessionStreamMessage<T>, String>,
)
    requires
        session_message(message, eof_error, terminating, result),
    ensures
        message matches Ok(Some(given)) ==> result == Ok::<SessionStreamMessage<T>, String>(
            SessionStreamMessage::Message(given),
        ),
        (result matches Ok(taken) && taken is Message) ==> (message matches Ok(Some(given))
            && result->Ok_0 == SessionStreamMessage::Message(given)),
        (result matches Ok(taken) && taken is ExpectedShutdownClose) <==> terminating && match message {
            Ok(None) => true,
            Err(fault) => fault.expected_close,
            _ => false,
        },
        message matches Ok(None) ==> (!terminating ==> (result matches Err(why) && why@
            == eof_error)),
        message matches Err(fault) ==> (!(terminating && fault.expected_close) ==> (
        result matches Err(why) && why@ == "stream error: "@ + fault.status@)),
{
}

/// A stream that must go on gives its messages as they are, and its end is an error whatever it
/// ends by.
pub proof fn lemma_streams_must_go_on<T>(
    message: Result<Option<T>, StreamFault>,
    eof_error: Seq<char>,
    result: Result<T, String>,
)
    requires
        stream_message(message, eof_error, result),
    ensures
        result is Ok <==> (message matches Ok(given) && given is Some),
        result matches Ok(given) ==> message == Ok::<Option<T>, StreamFault>(Some(given)),
        message matches Ok(None) ==> (result matches Err(why) && why@ == eof_error),
        message matches Err(fault) ==> (result matches Err(why) && why@ == "stream error: "@
            + fault.status@),
{
}

/// Each message of the gateway has its own answer: a heartbeat none, the request for a relay that
/// relay, unchanged, and the end of one a report; and nothing else is expected once the session
/// stands.
pub proof fn lemma_messages_have_their_answers(
    message: GatewayMessage,
    path: Seq<char>,
    action: GatewayAction,
)
    requires
        asked(message, path, action),
    ensures
        action is Nothing <==> message is Heartbeat,
        action is OpenRelay <==> message is RelayOpen,
        action is Report <==> message is RelayClose,
        action matches GatewayAction::OpenRelay(event, open) ==> message == GatewayMessage::RelayOpen(
            open,
        ),
{
}

} // verus!
