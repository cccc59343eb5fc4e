//! The course of a relay, from reaching its target to its end.

use vstd::prelude::*;
use crate::supervisor::relay::{
    ends_inbound, ends_unopened, inbound_step, init_frame, outbound_frame, relay_open_result,
    relay_stream_outcome, Inbound, InboundAction, RelayFrame, RelayOpenResult, StreamFault,
    RELAY_CHUNK_SIZE,
};

verus! {

/// How far a relay has come, but for what it reads from its target.
#[derive(Debug)]
pub enum RelayPhase {
    /// The target is being reached.
    Opening,
    /// The gateway is being told whether the target was reached.
    Telling(Result<(), String>),
    /// The first frame is being queued.
    Starting,
    /// The stream is being opened.
    Calling,
    /// The next frame of the gateway is awaited.
    Receiving,
    /// Bytes of the gateway are handed to the target.
    Writing,
    /// The target is being told that no more comes.
    HalfClosing(Result<(), String>),
    /// The gateway sends no more; what the target still sends is carried.
    Draining(Result<(), String>),
    /// The relay has ended.
    Ended,
}

/// How far the reading from a relay's target has come.
#[derive(Debug, Clone, Copy, PartialEq, Eq, Structural)]
pub enum ReadingPhase {
    /// It has not begun.
    Idle,
    /// The next bytes are awaited.
    Reading,
    /// A frame with the bytes is being queued.
    Queueing,
    /// It has ended.
    Done,
}

/// How far a relay has come. Its two directions go on side by side.
#[derive(Debug)]
pub struct RelayState {
    pub channel_id: String,
    pub phase: RelayPhase,
    pub reading: ReadingPhase,
}

/// What happened to a relay.
#[derive(Debug)]
pub enum RelayEvent {
    /// The target was reached, or why it was not.
    TargetOpened(Result<(), String>),
    /// The gateway was told, as far as it still listens.
    ResultSent,
    /// Whether the first frame was queued.
    InitQueued(bool),
    /// The stream was opened, or why it was not.
    StreamOpened(Result<(), StreamFault>),
    /// Something came over the stream.
    Received(Inbound),
    /// The target took the bytes, or why it did not.
    Written(Result<(), String>),
    /// The target was told that no more comes.
    HalfClosed,
    /// Nothing more is read from the target.
    ReadingEnded,
    /// What reading from the target gave.
    Read(Result<Vec<u8>, String>),
    /// Whether a frame with bytes of the target was queued.
    DataQueued(bool),
}

/// What to do next with a relay.
#[derive(Debug)]
pub enum RelayAction {
    /// Tell the gateway.
    SendResult(RelayOpenResult),
    /// Queue a frame for the gateway.
    SendFrame(RelayFrame),
    /// Open the stream.
    OpenStream,
    /// Begin to carry bytes in both directions: await a frame, and read from the target.
    Carry,
    /// Await the next frame.
    Receive,
    /// Hand these bytes to the target.
    Write(Vec<u8>),
    /// Tell the target that no more comes.
    HalfClose,
    /// Queue no more but what is still read from the target, and await the end of that.
    Drain,
    /// Read on from the target.
    Read,
    /// Read no more from the target.
    StopReading,
    /// End the relay.
    Finish(Result<(), String>),
}

impl RelayState {
    /// A relay whose target is being reached.
    pub fn new(channel_id: String) -> (state: Self)
        ensures
            state == (RelayState {
                channel_id,
                phase: RelayPhase::Opening,
                reading: ReadingPhase::Idle,
            }),
    {
        RelayState { channel_id, phase: RelayPhase::Opening, reading: ReadingPhase::Idle }
    }

    /// Whether nothing has happened yet.
    pub open spec fn fresh(self) -> bool {
        self.phase is Opening && self.reading == ReadingPhase::Idle
    }

    /// Whether an event can come in a state. No more is read from the target at once than a frame
    /// may hold.
    pub open spec fn expects(self, event: RelayEvent) -> bool {
        match event {
            RelayEvent::TargetOpened(_) => self.phase is Opening,
            RelayEvent::ResultSent => self.phase is Telling,
            RelayEvent::InitQueued(_) => self.phase is Starting,
            RelayEvent::StreamOpened(_) => self.phase is Calling,
            RelayEvent::Received(_) => self.phase is Receiving,
            RelayEvent::Written(_) => self.phase is Writing,
            RelayEvent::HalfClosed => self.phase is HalfClosing,
            RelayEvent::ReadingEnded => self.phase is Draining && self.reading
                == ReadingPhase::Done,
            RelayEvent::Read(read) => self.reading == ReadingPhase::Reading && (read matches Ok(
                bytes,
            ) ==> bytes@.len() <= RELAY_CHUNK_SIZE),
            RelayEvent::DataQueued(_) => self.reading == ReadingPhase::Queueing,
        }
    }

    /// The state with the relay come to `phase`.
    pub open spec fn at(self, phase: RelayPhase) -> Self {
        RelayState { phase, ..self }
    }

    /// The state with the reading come to `reading`.
    pub open spec fn reads(self, reading: ReadingPhase) -> Self {
        RelayState { reading, ..self }
    }

    /// What something that comes over the stream leads to.
    pub open spec fn receives(
        self,
        inbound: Inbound,
        terminating: bool,
        next: Self,
        action: RelayAction,
    ) -> bool {
        match inbound {
            Inbound::Frame(RelayFrame::Data(data)) => if data@.len() == 0 {
                next == self.at(RelayPhase::Receiving) && action is Receive
            } else {
                next == self.at(RelayPhase::Writing) && action == RelayAction::Write(data)
            },
            _ => {
                &&& next == self.at(next.phase)
                &&& next.phase matches RelayPhase::HalfClosing(outcome)
                &&& ends_inbound(inbound, terminating, outcome)
                &&& action is HalfClose
            },
        }
    }

    /// What an event leads to: the next state, and what to do.
    pub open spec fn leads_to(
        self,
        event: RelayEvent,
        terminating: bool,
        next: Self,
        action: RelayAction,
    ) -> bool {
        match event {
            RelayEvent::TargetOpened(outcome) => {
                &&& next == self.at(RelayPhase::Telling(outcome))
                &&& action matches RelayAction::SendResult(result)
                &&& result.tells(self.channel_id@, outcome)
            },
            RelayEvent::ResultSent => match self.phase {
                RelayPhase::Telling(Err(error)) => next == self.at(RelayPhase::Ended) && action
                    == RelayAction::Finish(Err(error)),
                _ => {
                    &&& next == self.at(RelayPhase::Starting)
                    &&& action matches RelayAction::SendFrame(RelayFrame::Init { channel_id })
                    &&& channel_id@ == self.channel_id@
                },
            },
            RelayEvent::InitQueued(queued) => if queued {
                next == self.at(RelayPhase::Calling) && action is OpenStream
            } else {
                &&& next == self.at(RelayPhase::Ended)
                &&& action matches RelayAction::Finish(Err(e))
                &&& e@ == "outbound channel closed before init"@
            },
            RelayEvent::StreamOpened(Ok(())) => next == self.at(RelayPhase::Receiving).reads(
                ReadingPhase::Reading,
            ) && action is Carry,
            RelayEvent::StreamOpened(Err(fault)) => {
                &&& next == self.at(RelayPhase::Ended)
                &&& action matches RelayAction::Finish(outcome)
                &&& ends_unopened(fault, terminating, outcome)
            },
            RelayEvent::Received(inbound) => self.receives(inbound, terminating, next, action),
            RelayEvent::Written(Ok(())) => next == self.at(RelayPhase::Receiving)
                && action is Receive,
            RelayEvent::Written(Err(reason)) => self.receives(
                Inbound::WriteFailed(reason),
                terminating,
                next,
                action,
            ),
            RelayEvent::HalfClosed => match self.phase {
                RelayPhase::HalfClosing(outcome) => next == self.at(RelayPhase::Draining(outcome))
                    && action is Drain,
                _ => false,
            },
            RelayEvent::ReadingEnded => match self.phase {
                RelayPhase::Draining(outcome) => next == self.at(RelayPhase::Ended) && action
                    == RelayAction::Finish(outcome),
                _ => false,
            },
            RelayEvent::Read(Ok(bytes)) => if bytes@.len() > 0 {
                next == self.reads(ReadingPhase::Queueing) && action == RelayAction::SendFrame(
                    RelayFrame::Data(bytes),
                )
            } else {
                next == self.reads(ReadingPhase::Done) && action is StopReading
            },
            RelayEvent::Read(Err(_)) => next == self.reads(ReadingPhase::Done)
                && action is StopReading,
            RelayEvent::DataQueued(queued) => if queued {
                next == self.reads(ReadingPhase::Reading) && action is Read
            } else {
                next == self.reads(ReadingPhase::Done) && action is StopReading
            },
        }
    }

    fn receive(self, inbound: Inbound, terminating: bool) -> (next: (RelayState, RelayAction))
        ensures
            self.receives(inbound, terminating, next.0, next.1),
    {
        let (phase, action) = match inbound_step(inbound, terminating) {
            InboundAction::Write(data) => (RelayPhase::Writing, RelayAction::Write(data)),
            InboundAction::Wait => (RelayPhase::Receiving, RelayAction::Receive),
            InboundAction::Finish(outcome) => (
                RelayPhase::HalfClosing(outcome),
                RelayAction::HalfClose,
            ),
        };
        (RelayState { channel_id: self.channel_id, phase, reading: self.reading }, action)
    }

    /// Whether an event can come in the state.
    pub fn can_take(&self, event: &RelayEvent) -> (yes: bool)
        ensures
            yes == self.expects(*event),
    {
        match (event, &self.phase) {
            (RelayEvent::TargetOpened(_), RelayPhase::Opening) => true,
            (RelayEvent::ResultSent, RelayPhase::Telling(_)) => true,
            (RelayEvent::InitQueued(_), RelayPhase::Starting) => true,
            (RelayEvent::StreamOpened(_), RelayPhase::Calling) => true,
            (RelayEvent::Received(_), RelayPhase::Receiving) => true,
            (RelayEvent::Written(_), RelayPhase::Writing) => true,
            (RelayEvent::HalfClosed, RelayPhase::HalfClosing(_)) => true,
            (RelayEvent::ReadingEnded, RelayPhase::Draining(_)) => self.reading
                == ReadingPhase::Done,
            (RelayEvent::Read(Ok(bytes)), _) => self.reading == ReadingPhase::Reading
                && bytes.len() <= RELAY_CHUNK_SIZE,
            (RelayEvent::Read(Err(_)), _) => self.reading == ReadingPhase::Reading,
            (RelayEvent::DataQueued(_), _) => self.reading == ReadingPhase::Queueing,
            _ => false,
        }
    }

    /// Decides what to do once an event has come.
    pub fn step(self, event: RelayEvent, terminating: bool) -> (next: (RelayState, RelayAction))
        requires
            self.expects(event),
        ensures
            self.leads_to(event, terminating, next.0, next.1),
    {
        let RelayState { channel_id, phase, reading } = self;
        match event {
            RelayEvent::TargetOpened(outcome) => {
                let result = relay_open_result(channel_id.as_str(), &outcome);
                (
                    RelayState { channel_id, phase: RelayPhase::Telling(outcome), reading },
                    RelayAction::SendResult(result),
                )
            },
            RelayEvent::ResultSent => match phase {
                RelayPhase::Telling(Err(error)) => (
                    RelayState { channel_id, phase: RelayPhase::Ended, reading },
                    RelayAction::Finish(Err(error)),
                ),
                _ => {
                    let frame = init_frame(channel_id.as_str());
                    (
                        RelayState { channel_id, phase: RelayPhase::Starting, reading },
                        RelayAction::SendFrame(frame),
                    )
                },
            },
            RelayEvent::InitQueued(queued) => if queued {
                (
                    RelayState { channel_id, phase: RelayPhase::Calling, reading },
                    RelayAction::OpenStream,
                )
            } else {
                (
                    RelayState { channel_id, phase: RelayPhase::Ended, reading },
                    RelayAction::Finish(Err("outbound channel closed before init".to_string())),
                )
            },
            RelayEvent::StreamOpened(opened) => match relay_stream_outcome(opened, terminating) {
                None => (
                    RelayState {
                        channel_id,
                        phase: RelayPhase::Receiving,
                        reading: ReadingPhase::Reading,
                    },
                    RelayAction::Carry,
                ),
                Some(outcome) => (
                    RelayState { channel_id, phase: RelayPhase::Ended, reading },
                    RelayAction::Finish(outcome),
                ),
            },
            RelayEvent::Received(inbound) => (RelayState { channel_id, phase, reading }).receive(
                inbound,
                terminating,
            ),
            RelayEvent::Written(Ok(())) => (
                RelayState { channel_id, phase: RelayPhase::Receiving, reading },
                RelayAction::Receive,
            ),
            RelayEvent::Written(Err(reason)) => (
            RelayState { channel_id, phase, reading }).receive(
                Inbound::WriteFailed(reason),
                terminating,
            ),
            RelayEvent::HalfClosed => {
                let phase = match phase {
                    RelayPhase::HalfClosing(outcome) => RelayPhase::Draining(outcome),
                    other => other,
                };
                (RelayState { channel_id, phase, reading }, RelayAction::Drain)
            },
            RelayEvent::ReadingEnded => {
                let outcome = match phase {
                    RelayPhase::Draining(outcome) => outcome,
                    _ => Ok(()),
                };
                (
                    RelayState { channel_id, phase: RelayPhase::Ended, reading },
                    RelayAction::Finish(outcome),
                )
            },
            RelayEvent::Read(read) => match outbound_frame(read) {
                Some(frame) => (
                    RelayState { channel_id, phase, reading: ReadingPhase::Queueing },
                    RelayAction::SendFrame(frame),
                ),
                None => (
                    RelayState { channel_id, phase, reading: ReadingPhase::Done },
                    RelayAction::StopReading,
                ),
            },
            RelayEvent::DataQueued(queued) => if queued {
                (
                    RelayState { channel_id, phase, reading: ReadingPhase::Reading },
                    RelayAction::Read,
                )
            } else {
                (
                    RelayState { channel_id, phase, reading: ReadingPhase::Done },
                    RelayAction::StopReading,
                )
            },
        }
    }
}

/// One step of a relay.
pub struct RelayStep {
    pub before: RelayState,
    pub event: RelayEvent,
    pub terminating: bool,
    pub action: RelayAction,
}

/// Whether a relay goes by these steps from `start` to `end`.
pub open spec fn runs(start: RelayState, steps: Seq<RelayStep>, end: RelayState) -> bool
    decreases steps.len(),
{
    if steps.len() == 0 {
        start == end
    } else {
        let step = steps.last();
        &&& runs(start, steps.drop_last(), step.before)
        &&& step.before.expects(step.event)
        &&& step.before.leads_to(step.event, step.terminating, end, step.action)
    }
}

/// What the gateway is told of the relay, in order.
pub open spec fn results_sent(steps: Seq<RelayStep>) -> Seq<RelayOpenResult>
    decreases steps.len(),
{
    if steps.len() == 0 {
        Seq::empty()
    } else {
        match steps.last().action {
            RelayAction::SendResult(result) => results_sent(steps.drop_last()).push(result),
            _ => results_sent(steps.drop_last()),
        }
    }
}

/// The frames that are queued for the gateway, in order.
pub open spec fn frames_sent(steps: Seq<RelayStep>) -> Seq<RelayFrame>
    decreases steps.len(),
{
    if steps.len() == 0 {
        Seq::empty()
    } else {
        match steps.last().action {
            RelayAction::SendFrame(frame) => frames_sent(steps.drop_last()).push(frame),
            _ => frames_sent(steps.drop_last()),
        }
    }
}

/// Whether the stream is opened.
pub open spec fn opens_stream(steps: Seq<RelayStep>) -> bool {
    exists|i: int| 0 <= i < steps.len() && (#[trigger] steps[i]).action is OpenStream
}

/// Whether an event is that the target was reached.
pub open spec fn reached(event: RelayEvent) -> bool {
    event matches RelayEvent::TargetOpened(outcome) && outcome is Ok
}

/// Whether the target was reached.
pub open spec fn reaches_target(steps: Seq<RelayStep>) -> bool {
    exists|i: int|
        0 <= i < steps.len() && reached((#[trigger] steps[i]).event)
}

/// The bytes read from the target, one behind the other.
pub open spec fn bytes_read(steps: Seq<RelayStep>) -> Seq<u8>
    decreases steps.len(),
{
    if steps.len() == 0 {
        Seq::empty()
    } else {
        bytes_read(steps.drop_last()) + match steps.last().event {
            RelayEvent::Read(Ok(bytes)) => bytes@,
            _ => Seq::empty(),
        }
    }
}

/// The bytes that frames carry, one behind the other.
pub open spec fn bytes_carried(frames: Seq<RelayFrame>) -> Seq<u8>
    decreases frames.len(),
{
    if frames.len() == 0 {
        Seq::empty()
    } else {
        bytes_carried(frames.drop_last()) + match frames.last() {
            RelayFrame::Data(bytes) => bytes@,
            _ => Seq::empty(),
        }
    }
}

/// Whether frames are those of a channel: the first one names it, and each that follows carries
/// bytes, no more than are read at once.
pub open spec fn well_framed(channel_id: Seq<char>, frames: Seq<RelayFrame>) -> bool {
    &&& frames.len() > 0 ==> (frames[0] matches RelayFrame::Init { channel_id: id } && id@
        == channel_id)
    &&& forall|k: int|
        1 <= k < frames.len() ==> (#[trigger] frames[k] matches RelayFrame::Data(data) && 1
            <= data@.len() <= RELAY_CHUNK_SIZE)
}

/// What holds of a relay however far it has come.
pub open spec fn on_course(start: RelayState, steps: Seq<RelayStep>, end: RelayState) -> bool {
    let id = start.channel_id@;
    let results = results_sent(steps);
    let frames = frames_sent(steps);
    &&& end.channel_id@ == id
    &&& well_framed(id, frames)
    &&& bytes_carried(frames) == bytes_read(steps)
    &&& end.reading != ReadingPhase::Idle ==> frames.len() > 0 && reaches_target(steps)
    &&& opens_stream(steps) ==> frames.len() > 0
    &&& match end.phase {
        RelayPhase::Opening => results.len() == 0 && !reaches_target(steps),
        _ => results.len() == 1 && results[0].channel_id@ == id && results[0].success
            == reaches_target(steps) && (results[0].success ==> results[0].error@.len() == 0),
    }
    &&& match end.phase {
        RelayPhase::Opening => frames.len() == 0 && !opens_stream(steps) && end.reading
            == ReadingPhase::Idle,
        RelayPhase::Telling(outcome) => frames.len() == 0 && !opens_stream(steps)
            && reaches_target(steps) == (outcome is Ok) && end.reading == ReadingPhase::Idle,
        RelayPhase::Ended => !reaches_target(steps) ==> frames.len() == 0 && !opens_stream(steps),
        _ => reaches_target(steps) && frames.len() > 0,
    }
}

proof fn lemma_on_course(start: RelayState, steps: Seq<RelayStep>, end: RelayState)
    requires
        start.fresh(),
        runs(start, steps, end),
    ensures
        on_course(start, steps, end),
    decreases steps.len(),
{
    if steps.len() > 0 {
        let before = steps.drop_last();
        let step = steps[steps.len() - 1];
        lemma_on_course(start, before, step.before);
        assert(forall|i: int| 0 <= i < before.len() ==> #[trigger] before[i] == steps[i]);
        assert(opens_stream(steps) == (opens_stream(before) || step.action is OpenStream)) by {
            if opens_stream(before) {
                let i = choose|i: int|
                    0 <= i < before.len() && (#[trigger] before[i]).action is OpenStream;
                assert(steps[i].action is OpenStream);
            }
            if opens_stream(steps) {
                let i = choose|i: int|
                    0 <= i < steps.len() && (#[trigger] steps[i]).action is OpenStream;
                assert(i < before.len() ==> before[i].action is OpenStream);
            }
            assert(step.action is OpenStream ==> steps[steps.len() - 1].action is OpenStream);
        }
        assert(reaches_target(steps) == (reaches_target(before) || reached(step.event))) by {
            if reaches_target(before) {
                let i = choose|i: int|
                    0 <= i < before.len() && reached((#[trigger] before[i]).event);
                assert(reached(steps[i].event));
            }
            if reaches_target(steps) {
                let i = choose|i: int|
                    0 <= i < steps.len() && reached((#[trigger] steps[i]).event);
                assert(i < before.len() ==> reached(before[i].event));
            }
            assert(reached(step.event) ==> reached(steps[steps.len() - 1].event));
        }
        if let RelayAction::SendFrame(frame) = step.action {
            assert(frames_sent(steps).drop_last() =~= frames_sent(before));
        }
        assert(bytes_carried(frames_sent(steps)) =~= bytes_read(steps));
    } else {
        assert(bytes_carried(frames_sent(steps)) =~= bytes_read(steps));
    }
}

/// Of a relay the gateway is told once: that its target was reached, or that it was not.
pub proof fn lemma_one_result_for_each_relay(
    start: RelayState,
    steps: Seq<RelayStep>,
    end: RelayState,
)
    requires
        start.fresh(),
        runs(start, steps, end),
    ensures
        results_sent(steps).len() <= 1,
        end.phase is Ended ==> results_sent(steps).len() == 1,
        forall|i: int|
            0 <= i < results_sent(steps).len() ==> {
                let result = #[trigger] results_sent(steps)[i];
                &&& result.channel_id@ == start.channel_id@
                &&& result.success == reaches_target(steps)
                &&& result.success ==> result.error@.len() == 0
            },
{
    lemma_on_course(start, steps, end);
}

/// No stream is opened for a relay whose target was not reached, and no frame is sent.
pub proof fn lemma_no_stream_without_a_target(
    start: RelayState,
    steps: Seq<RelayStep>,
    end: RelayState,
)
    requires
        start.fresh(),
        runs(start, steps, end),
        !reaches_target(steps),
    ensures
        !opens_stream(steps),
        frames_sent(steps).len() == 0,
{
    lemma_on_course(start, steps, end);
}

/// The first frame of a relay names its channel. Each that follows carries bytes, no more than are
/// read at once, and together they are what was read from the target, in its order.
pub proof fn lemma_frames_carry_what_is_read(
    start: RelayState,
    steps: Seq<RelayStep>,
    end: RelayState,
)
    requires
        start.fresh(),
        runs(start, steps, end),
    ensures
        well_framed(start.channel_id@, frames_sent(steps)),
        bytes_carried(frames_sent(steps)) == bytes_read(steps),
        opens_stream(steps) ==> frames_sent(steps).len() > 0,
{
    lemma_on_course(start, steps, end);
}

impl RelayState {
    /// Each event has one answer. The gateway is told what came of reaching the target; a relay
    /// that reached it names its channel, opens the stream and carries; bytes that come over the
    /// stream are handed to the target as they are; and the relay ends with what ended it.
    pub proof fn lemma_relay_goes_step_by_step(
        self,
        event: RelayEvent,
        terminating: bool,
        next: Self,
        action: RelayAction,
    )
        requires
            self.expects(event),
            self.leads_to(event, terminating, next, action),
        ensures
            next.channel_id == self.channel_id,
            event matches RelayEvent::TargetOpened(outcome) ==> next.phase == RelayPhase::Telling(
                outcome,
            ) && (action matches RelayAction::SendResult(result) && result.channel_id@
                == self.channel_id@ && result.success == (outcome is Ok) && (outcome is Ok
                ==> result.error@.len() == 0) && (outcome matches Err(why) ==> result.error@
                == why@)),
            action is SendResult ==> event is TargetOpened,
            event is ResultSent ==> (self.phase matches RelayPhase::Telling(Err(why))
                ==> next.phase is Ended && action == RelayAction::Finish(Err(why))),
            event is ResultSent && self.phase == RelayPhase::Telling(Ok(())) ==> next.phase is Starting
                && (action matches RelayAction::SendFrame(RelayFrame::Init { channel_id })
                && channel_id@ == self.channel_id@),
            action is OpenStream <==> event == RelayEvent::InitQueued(true),
            event == RelayEvent::InitQueued(true) ==> next.phase is Calling,
            event == RelayEvent::InitQueued(false) ==> next.phase is Ended && (action matches
                RelayAction::Finish(Err(why)) && why@ == "outbound channel closed before init"@),
            action is Carry <==> (event matches RelayEvent::StreamOpened(opened) && opened is Ok),
            action is Carry ==> next.phase is Receiving && next.reading == ReadingPhase::Reading,
            event matches RelayEvent::StreamOpened(Err(fault)) ==> next.phase is Ended && (
            action matches RelayAction::Finish(outcome) && (outcome is Ok <==> terminating
                && fault.expected_close) && (outcome matches Err(why) ==> why@
                == "relay_stream RPC failed: "@ + fault.status@)),
            action matches RelayAction::Write(bytes) ==> event == RelayEvent::Received(
                Inbound::Frame(RelayFrame::Data(bytes)),
            ) && bytes@.len() > 0 && next.phase is Writing,
            event matches RelayEvent::Received(Inbound::Frame(RelayFrame::Data(bytes))) ==> (
            bytes@.len() > 0 ==> action == RelayAction::Write(bytes)) && (bytes@.len() == 0
                ==> action is Receive && next.phase is Receiving),
            event == RelayEvent::Written(Ok(())) ==> action is Receive && next.phase is Receiving,
            event is HalfClosed ==> action is Drain && (self.phase matches RelayPhase::HalfClosing(
                outcome,
            ) && next.phase == RelayPhase::Draining(outcome)),
            event is ReadingEnded ==> next.phase is Ended && (self.phase matches
                RelayPhase::Draining(outcome) && action == RelayAction::Finish(outcome)),
    {
    }

    /// The carrying ends when the gateway's stream ends or fails, when it brings what is no data,
    /// or when the target takes no more; the target is then told that no more comes. It ends in
    /// order at the end of the stream, and at a fault that belongs to this supervisor's shutdown.
    pub proof fn lemma_carrying_ends_for_a_reason(
        self,
        event: RelayEvent,
        terminating: bool,
        next: Self,
        action: RelayAction,
    )
        requires
            self.expects(event),
            self.leads_to(event, terminating, next, action),
        ensures
            action is HalfClose <==> (event matches RelayEvent::Received(inbound) && !(inbound
                matches Inbound::Frame(RelayFrame::Data(_)))) || (event matches RelayEvent::Written(
                taken,
            ) && taken is Err),
            action is HalfClose ==> next.phase is HalfClosing,
            next.phase matches RelayPhase::HalfClosing(outcome) ==> (action is HalfClose
                ==> match event {
                RelayEvent::Received(Inbound::End) => outcome is Ok,
                RelayEvent::Received(Inbound::Fault(fault)) => (outcome is Ok <==> terminating
                    && fault.expected_close) && (outcome matches Err(why) ==> why@
                    == "relay inbound errored: "@ + fault.status@),
                RelayEvent::Received(Inbound::Frame(_)) => outcome matches Err(why) && why@
                    == "relay inbound received non-data frame"@,
                RelayEvent::Received(Inbound::WriteFailed(reason)) => outcome matches Err(why)
                    && why@ == "write to target failed: "@ + reason@,
                RelayEvent::Written(Err(reason)) => outcome matches Err(why) && why@
                    == "write to target failed: "@ + reason@,
                _ => false,
            }),
    {
    }

    /// The two directions of a relay do not disturb each other: what is read from the target
    /// changes nothing of what comes from the gateway, and the other way round. What was read
    /// is queued as it is, and reading goes on once it was; it stops at the target's end.
    pub proof fn lemma_directions_are_apart(
        self,
        event: RelayEvent,
        terminating: bool,
        next: Self,
        action: RelayAction,
    )
        requires
            self.expects(event),
            self.leads_to(event, terminating, next, action),
        ensures
            event is Read || event is DataQueued ==> next.phase == self.phase,
            !(event is Read || event is DataQueued || event is StreamOpened) ==> next.reading
                == self.reading,
            event matches RelayEvent::Read(Ok(bytes)) ==> (bytes@.len() > 0 ==> action
                == RelayAction::SendFrame(RelayFrame::Data(bytes)) && next.reading
                == ReadingPhase::Queueing) && (bytes@.len() == 0 ==> action is StopReading
                && next.reading == ReadingPhase::Done),
            event matches RelayEvent::Read(Err(_)) ==> action is StopReading && next.reading
                == ReadingPhase::Done,
            action is Read <==> event == RelayEvent::DataQueued(true),
            event == RelayEvent::DataQueued(true) ==> next.reading == ReadingPhase::Reading,
            event == RelayEvent::DataQueued(false) ==> action is StopReading && next.reading
                == ReadingPhase::Done,
    {
    }
}

/// The bytes that came over the stream, one behind the other.
pub open spec fn bytes_received(steps: Seq<RelayStep>) -> Seq<u8>
    decreases steps.len(),
{
    if steps.len() == 0 {
        Seq::empty()
    } else {
        bytes_received(steps.drop_last()) + match steps.last().event {
            RelayEvent::Received(Inbound::Frame(RelayFrame::Data(bytes))) => bytes@,
            _ => Seq::empty(),
        }
    }
}

/// The bytes that were handed to the target, one behind the other.
pub open spec fn bytes_handed(steps: Seq<RelayStep>) -> Seq<u8>
    decreases steps.len(),
{
    if steps.len() == 0 {
        Seq::empty()
    } else {
        bytes_handed(steps.drop_last()) + match steps.last().action {
            RelayAction::Write(bytes) => bytes@,
            _ => Seq::empty(),
        }
    }
}

/// What is handed to the target is what came over the stream, all of it and in its order.
pub proof fn lemma_target_gets_what_is_received(
    start: RelayState,
    steps: Seq<RelayStep>,
    end: RelayState,
)
    requires
        runs(start, steps, end),
    ensures
        bytes_handed(steps) == bytes_received(steps),
        end.channel_id == start.channel_id,
    decreases steps.len(),
{
    if steps.len() > 0 {
        let step = steps.last();
        lemma_target_gets_what_is_received(start, steps.drop_last(), step.before);
        step.before.lemma_relay_goes_step_by_step(step.event, step.terminating, end, step.action);
        if let RelayEvent::Received(Inbound::Frame(RelayFrame::Data(bytes))) = step.event {
            assert(bytes@.len() == 0 ==> bytes@ =~= Seq::<u8>::empty());
        }
    }
}

} // verus!
