//! Interceptors around the calls of the gateway's own service.

use vstd::prelude::*;
use http::{HeaderMap, HeaderValue};
use crate::gateway::headers::{
    final_status_text, grpc_status_from_response, grpc_status_from_response_and_trailers,
    status_text,
};
use crate::gateway::status::{Code, Status};
use crate::text;
use crate::text::{all_together, decimal_of, together};

verus! {

/// The largest message that is decoded.
pub const MAX_GRPC_DECODE_SIZE: usize = 1_048_576;

/// The largest body that is handed to interceptors: a message with its frame header.
pub const MAX_INTERCEPTED_GRPC_BODY_SIZE: usize = 1_048_581;

/// Applies interceptors before the calls of an inner service.
pub struct GatewayInterceptorGrpcService<S, R> {
    pub inner: S,
    pub interceptors: Option<R>,
}

impl<S, R> GatewayInterceptorGrpcService<S, R> {
    pub fn new(inner: S, interceptors: Option<R>) -> (service: Self)
        ensures
            service == (GatewayInterceptorGrpcService { inner, interceptors }),
    {
        GatewayInterceptorGrpcService { inner, interceptors }
    }
}

/// Why the body of a call could not be read.
#[derive(Debug)]
pub enum BodyError {
    /// It is larger than what is handed to interceptors.
    TooLarge,
    /// Reading failed.
    Failed(String),
}

/// The status for a body that could not be read.
pub open spec fn body_refusal(error: BodyError) -> (Code, Seq<char>) {
    match error {
        BodyError::TooLarge => (
            Code::ResourceExhausted,
            "gRPC request body exceeds interceptor evaluation limit of "@ + decimal_of(
                MAX_INTERCEPTED_GRPC_BODY_SIZE as nat,
            ) + " bytes"@,
        ),
        BodyError::Failed(message) => (
            Code::Internal,
            "failed to read gRPC request body for interceptor evaluation: "@ + message@,
        ),
    }
}

/// The status for a body that could not be read.
pub fn body_error_status(error: &BodyError) -> (status: Status)
    ensures
        (status.code, status.message@) == body_refusal(*error),
{
    match error {
        BodyError::TooLarge => Status {
            code: Code::ResourceExhausted,
            message: all_together(
                "gRPC request body exceeds interceptor evaluation limit of ",
                text::decimal(MAX_INTERCEPTED_GRPC_BODY_SIZE as u64).as_str(),
                " bytes",
            ),
        },
        BodyError::Failed(message) => Status {
            code: Code::Internal,
            message: together(
                "failed to read gRPC request body for interceptor evaluation: ",
                message.as_str(),
            ),
        },
    }
}

/// How far an intercepted call has come.
#[derive(Debug, Clone, Copy, PartialEq, Eq, Structural)]
pub enum CallState {
    /// The call came in.
    Received,
    /// Its body is being read.
    ReadingBody,
    /// The interceptors look at it.
    Evaluating,
    /// The inner service answers it.
    Calling,
    /// The answer is being read.
    ReadingResponse,
    /// The interceptors look at the answer.
    PostCommit,
    /// The call has ended.
    Ended,
}

/// What happened to an intercepted call.
pub enum CallEvent {
    /// Whether interceptors are configured and care for the path.
    Arrived { intercepted: bool },
    BodyRead(Result<Vec<u8>, BodyError>),
    /// The interceptors let the call through, with the body to hand on, or refused it.
    Evaluated(Result<Vec<u8>, Status>),
    /// The inner service answered, with these headers; whether interceptors want to look at the
    /// answer.
    Answered { headers: HeaderMap<HeaderValue>, post_commit: bool },
    /// The answer was read: the headers and trailers, or why reading failed.
    ResponseRead {
        headers: HeaderMap<HeaderValue>,
        trailers: Result<Option<HeaderMap<HeaderValue>>, String>,
    },
    PostCommitEvaluated(Result<(), Status>),
}

/// Where the failure to look at an answer is counted.
#[derive(Debug, Clone, Copy, PartialEq, Eq, Structural)]
pub enum FailureStage {
    ResponseBody,
    Evaluation,
}

/// What to do next with an intercepted call.
pub enum CallAction {
    /// Hand the call to the inner service unchanged, and return its answer.
    PassThrough,
    ReadBody,
    /// Have the interceptors look at the body.
    Evaluate(Vec<u8>),
    /// Hand the call with this body to the inner service.
    CallInner(Vec<u8>),
    /// Answer with this status.
    Refuse(Status),
    ReadResponse,
    /// Have the interceptors look at the answer.
    EvaluatePostCommit,
    /// Return the answer of the inner service; where looking at it failed, count that.
    Return(Option<FailureStage>),
}

impl CallState {
    /// Whether an event can come in a state.
    pub open spec fn expects(self, event: CallEvent) -> bool {
        match self {
            CallState::Received => event is Arrived,
            CallState::ReadingBody => event is BodyRead,
            CallState::Evaluating => event is Evaluated,
            CallState::Calling => event is Answered,
            CallState::ReadingResponse => event is ResponseRead,
            CallState::PostCommit => event is PostCommitEvaluated,
            CallState::Ended => false,
        }
    }

    /// What an event leads to: the next state, and what to do.
    pub open spec fn leads_to(self, event: CallEvent, next: Self, action: CallAction) -> bool {
        match event {
            CallEvent::Arrived { intercepted } => if intercepted {
                next == CallState::ReadingBody && action is ReadBody
            } else {
                next == CallState::Ended && action is PassThrough
            },
            CallEvent::BodyRead(Ok(body)) => next == CallState::Evaluating && action
                == CallAction::Evaluate(body),
            CallEvent::BodyRead(Err(error)) => next == CallState::Ended && (action matches
                CallAction::Refuse(status) && (status.code, status.message@) == body_refusal(
                error,
            )),
            CallEvent::Evaluated(Ok(body)) => next == CallState::Calling && action
                == CallAction::CallInner(body),
            CallEvent::Evaluated(Err(status)) => next == CallState::Ended && action
                == CallAction::Refuse(status),
            CallEvent::Answered { headers, post_commit } => if status_text(headers) == "0"@
                && post_commit {
                next == CallState::ReadingResponse && action is ReadResponse
            } else {
                next == CallState::Ended && action == CallAction::Return(None)
            },
            CallEvent::ResponseRead { headers, trailers: Ok(trailers) } => if final_status_text(
                headers,
                trailers,
            ) == "0"@ {
                next == CallState::PostCommit && action is EvaluatePostCommit
            } else {
                next == CallState::Ended && action == CallAction::Return(None)
            },
            CallEvent::ResponseRead { trailers: Err(_), .. } => next == CallState::Ended && action
                == CallAction::Return(Some(FailureStage::ResponseBody)),
            CallEvent::PostCommitEvaluated(Ok(_)) => next == CallState::Ended && action
                == CallAction::Return(None),
            CallEvent::PostCommitEvaluated(Err(_)) => next == CallState::Ended && action
                == CallAction::Return(Some(FailureStage::Evaluation)),
        }
    }

    /// Whether an event can come in the state.
    pub fn can_take(&self, event: &CallEvent) -> (yes: bool)
        ensures
            yes == self.expects(*event),
    {
        match (self, event) {
            (CallState::Received, CallEvent::Arrived { .. }) => true,
            (CallState::ReadingBody, CallEvent::BodyRead(_)) => true,
            (CallState::Evaluating, CallEvent::Evaluated(_)) => true,
            (CallState::Calling, CallEvent::Answered { .. }) => true,
            (CallState::ReadingResponse, CallEvent::ResponseRead { .. }) => true,
            (CallState::PostCommit, CallEvent::PostCommitEvaluated(_)) => true,
            _ => false,
        }
    }

    /// Decides what to do once an event has come.
    pub fn step(self, event: CallEvent) -> (next: (CallState, CallAction))
        requires
            self.expects(event),
        ensures
            self.leads_to(event, next.0, next.1),
    {
        match event {
            CallEvent::Arrived { intercepted } => if intercepted {
                (CallState::ReadingBody, CallAction::ReadBody)
            } else {
                (CallState::Ended, CallAction::PassThrough)
            },
            CallEvent::BodyRead(Ok(body)) => (CallState::Evaluating, CallAction::Evaluate(body)),
            CallEvent::BodyRead(Err(error)) => (
                CallState::Ended,
                CallAction::Refuse(body_error_status(&error)),
            ),
            CallEvent::Evaluated(Ok(body)) => (CallState::Calling, CallAction::CallInner(body)),
            CallEvent::Evaluated(Err(status)) => (CallState::Ended, CallAction::Refuse(status)),
            CallEvent::Answered { headers, post_commit } => {
                let status = grpc_status_from_response(&headers);
                if text::same(status.as_str(), "0") && post_commit {
                    (CallState::ReadingResponse, CallAction::ReadResponse)
                } else {
                    (CallState::Ended, CallAction::Return(None))
                }
            },
            CallEvent::ResponseRead { headers, trailers } => match trailers {
                Ok(trailers) => {
                    let status = match &trailers {
                        Some(t) => grpc_status_from_response_and_trailers(&headers, Some(t)),
                        None => grpc_status_from_response_and_trailers(&headers, None),
                    };
                    if text::same(status.as_str(), "0") {
                        (CallState::PostCommit, CallAction::EvaluatePostCommit)
                    } else {
                        (CallState::Ended, CallAction::Return(None))
                    }
                },
                Err(_) => (CallState::Ended, CallAction::Return(Some(FailureStage::ResponseBody))),
            },
            CallEvent::PostCommitEvaluated(Ok(_)) => (CallState::Ended, CallAction::Return(None)),
            CallEvent::PostCommitEvaluated(Err(_)) => (
                CallState::Ended,
                CallAction::Return(Some(FailureStage::Evaluation)),
            ),
        }
    }
}

/// Once the inner service has answered, its answer is returned, whatever the interceptors make
/// of it afterwards.
pub proof fn lemma_committed_answer_is_kept(
    state: CallState,
    event: CallEvent,
    next: CallState,
    action: CallAction,
)
    requires
        state == CallState::Calling || state == CallState::ReadingResponse || state
            == CallState::PostCommit,
        state.expects(event),
        state.leads_to(event, next, action),
    ensures
        !(action is Refuse),
        next == CallState::Ended ==> action is Return,
        next == CallState::Ended || next == CallState::ReadingResponse || next
            == CallState::PostCommit,
{
}

/// A call that interceptors care for reaches the inner service only once they let it through.
pub proof fn lemma_intercepted_call_is_evaluated(
    state: CallState,
    event: CallEvent,
    next: CallState,
    action: CallAction,
)
    requires
        state.expects(event),
        state.leads_to(event, next, action),
    ensures
        action is CallInner ==> (event matches CallEvent::Evaluated(Ok(_))),
        action is PassThrough ==> (event matches CallEvent::Arrived { intercepted } && !intercepted),
{
}

/// A frame of an answer.
#[derive(Debug)]
pub enum ObservedFrame {
    Data(Vec<u8>),
    Trailers(HeaderMap<HeaderValue>),
}

/// What was read of an answer: its frames in order, of which the last may be a failure to read.
#[derive(Debug)]
pub struct ResponseObserver<E> {
    pub frames: Vec<Result<ObservedFrame, E>>,
}

/// The bytes in the frames of an answer, one behind the other.
pub open spec fn data_bytes<E>(frames: Seq<Result<ObservedFrame, E>>) -> Seq<u8>
    decreases frames.len(),
{
    if frames.len() == 0 {
        Seq::empty()
    } else {
        data_bytes(frames.drop_last()) + match frames.last() {
            Ok(ObservedFrame::Data(bytes)) => bytes@,
            _ => Seq::empty(),
        }
    }
}

/// The last trailers among the frames of an answer.
pub open spec fn last_trailers<E>(frames: Seq<Result<ObservedFrame, E>>) -> Option<
    HeaderMap<HeaderValue>,
>
    decreases frames.len(),
{
    if frames.len() == 0 {
        None
    } else {
        match frames.last() {
            Ok(ObservedFrame::Trailers(t)) => Some(t),
            _ => last_trailers(frames.drop_last()),
        }
    }
}

/// Whether reading an answer has ended with a failure.
pub open spec fn broken<E>(frames: Seq<Result<ObservedFrame, E>>) -> bool {
    frames.len() > 0 && frames.last() is Err
}

impl<E> ResponseObserver<E> {
    /// Nothing was read past a failure.
    pub open spec fn wf(self) -> bool {
        forall|i: int| 0 <= i < self.frames@.len() - 1 ==> (#[trigger] self.frames@[i]) is Ok
    }

    /// Nothing was read yet.
    pub fn new() -> (observer: Self)
        ensures
            observer.frames@ == Seq::<Result<ObservedFrame, E>>::empty(),
            observer.wf(),
    {
        ResponseObserver { frames: Vec::new() }
    }

    /// Takes note of one more frame, or of the failure to read one.
    pub fn see(&mut self, frame: Result<ObservedFrame, E>)
        requires
            old(self).wf(),
            !broken(old(self).frames@),
        ensures
            final(self).frames@ == old(self).frames@.push(frame),
            final(self).wf(),
    {
        self.frames.push(frame);
    }

    /// Whether reading has ended with a failure.
    pub fn is_broken(&self) -> (yes: bool)
        ensures
            yes == broken(self.frames@),
    {
        let n: usize = self.frames.len();
        n > 0 && self.frames[n - 1].is_err()
    }

    /// What the interceptors are told of the answer: its bytes and its last trailers, or the
    /// failure to read it.
    pub fn observation(&self) -> (observed: Result<
        (Vec<u8>, Option<&HeaderMap<HeaderValue>>),
        &E,
    >)
        requires
            self.wf(),
        ensures
            match observed {
                Ok((bytes, trailers)) => {
                    &&& !broken(self.frames@)
                    &&& bytes@ == data_bytes(self.frames@)
                    &&& match trailers {
                        Some(t) => last_trailers(self.frames@) == Some(*t),
                        None => last_trailers(self.frames@) is None,
                    }
                },
                Err(failure) => broken(self.frames@) && self.frames@.last() == Err::<
                    ObservedFrame,
                    E,
                >(*failure),
            },
    {
        let n: usize = self.frames.len();
        let mut bytes: Vec<u8> = Vec::new();
        let mut trailers: Option<&HeaderMap<HeaderValue>> = None;
        let mut i: usize = 0;
        assert(self.frames@.take(0) =~= Seq::empty());
        while i < n
            invariant
                i <= n,
                n == self.frames@.len(),
                self.wf(),
                forall|k: int| 0 <= k < i ==> (#[trigger] self.frames@[k]) is Ok,
                bytes@ == data_bytes(self.frames@.take(i as int)),
                match trailers {
                    Some(t) => last_trailers(self.frames@.take(i as int)) == Some(*t),
                    None => last_trailers(self.frames@.take(i as int)) is None,
                },
            decreases n - i,
        {
            assert(self.frames@.take(i as int + 1).drop_last() =~= self.frames@.take(i as int));
            match &self.frames[i] {
                Ok(ObservedFrame::Data(data)) => {
                    bytes.extend_from_slice(data.as_slice());
                },
                Ok(ObservedFrame::Trailers(t)) => {
                    trailers = Some(t);
                },
                Err(failure) => {
                    return Err(failure);
                },
            }
            i = i + 1;
        }
        assert(self.frames@.take(n as int) =~= self.frames@);
        Ok((bytes, trailers))
    }

    /// The frames of the answer that is passed on: those that were read, in their order, up to
    /// and with the failure, where there is one.
    pub fn into_frames(self) -> (frames: Vec<Result<ObservedFrame, E>>)
        ensures
            frames@ == self.frames@,
    {
        self.frames
    }
}

/// The frames that a body yields, up to and with the first failure, where there is one.
pub open spec fn until_failure<E>(body: Seq<Result<ObservedFrame, E>>) -> Seq<
    Result<ObservedFrame, E>,
>
    decreases body.len(),
{
    if body.len() == 0 {
        body
    } else if body[0] is Err {
        seq![body[0]]
    } else {
        seq![body[0]] + until_failure(body.drop_first())
    }
}

/// An answer that was read to its end, or to its first failure, is passed on with the frames that
/// its body yields, in their order: all of them, or those up to and with the failure.
pub proof fn lemma_answer_is_passed_on<E>(
    observer: ResponseObserver<E>,
    body: Seq<Result<ObservedFrame, E>>,
    n: int,
)
    requires
        observer.wf(),
        0 <= n <= body.len(),
        observer.frames@ == body.take(n),
        n == body.len() || broken(observer.frames@),
    ensures
        observer.frames@ == until_failure(body),
{
    lemma_until_failure(body, n);
}

proof fn lemma_until_failure<E>(body: Seq<Result<ObservedFrame, E>>, n: int)
    requires
        0 <= n <= body.len(),
        forall|i: int| 0 <= i < n - 1 ==> (#[trigger] body.take(n)[i]) is Ok,
        n == body.len() || broken(body.take(n)),
    ensures
        body.take(n) == until_failure(body),
    decreases body.len(),
{
    if body.len() == 0 {
        assert(body.take(n) =~= body);
    } else if n == 1 && body[0] is Err {
        assert(body.take(n) =~= seq![body[0]]);
    } else {
        let rest = body.drop_first();
        assert(body.take(n)[0] == body[0]);
        assert forall|i: int| 0 <= i < n - 2 implies (#[trigger] rest.take(n - 1)[i]) is Ok by {
            assert(body.take(n)[i + 1] == rest.take(n - 1)[i]);
        }
        if n < body.len() {
            assert(rest.take(n - 1).last() == body.take(n).last());
        }
        lemma_until_failure(rest, n - 1);
        assert(body.take(n) =~= seq![body[0]] + rest.take(n - 1));
    }
}

/// The message for an answer that could not be read.
pub fn observation_error(status: &str) -> (message: String)
    ensures
        message@ == "failed to read gRPC response for post-commit evaluation: "@ + status@,
{
    together("failed to read gRPC response for post-commit evaluation: ", status)
}

/// A call goes through the interceptors step by step. One that they care for is read, and they
/// look at the body that was read; the inner service gets the body that they hand on; what they
/// refuse is answered with their status; and a call that they do not care for is handed on as it
/// is.
pub proof fn lemma_calls_go_through_the_interceptors(
    state: CallState,
    event: CallEvent,
    next: CallState,
    action: CallAction,
)
    requires
        state.expects(event),
        state.leads_to(event, next, action),
    ensures
        action is ReadBody <==> (event matches CallEvent::Arrived { intercepted } && intercepted),
        action is PassThrough <==> (event matches CallEvent::Arrived { intercepted }
            && !intercepted),
        action matches CallAction::Evaluate(body) ==> event == CallEvent::BodyRead(Ok(body)),
        event matches CallEvent::BodyRead(Ok(body)) ==> action == CallAction::Evaluate(body) && next
            == CallState::Evaluating,
        event matches CallEvent::BodyRead(Err(error)) ==> next == CallState::Ended && (action matches
            CallAction::Refuse(status) && match error {
            BodyError::TooLarge => status.code == Code::ResourceExhausted && status.message@
                == "gRPC request body exceeds interceptor evaluation limit of "@ + decimal_of(
                1048581,
            ) + " bytes"@,
            BodyError::Failed(why) => status.code == Code::Internal && status.message@
                == "failed to read gRPC request body for interceptor evaluation: "@ + why@,
        }),
        action matches CallAction::CallInner(body) ==> event == CallEvent::Evaluated(Ok(body)),
        event matches CallEvent::Evaluated(Ok(body)) ==> action == CallAction::CallInner(body)
            && next == CallState::Calling,
        event matches CallEvent::Evaluated(Err(status)) ==> action == CallAction::Refuse(status)
            && next == CallState::Ended,
        action is Refuse ==> event is BodyRead || event is Evaluated,
        next == CallState::ReadingBody <==> action is ReadBody,
{
}

/// Interceptors look at an answer where they want to and the call went well by its headers, and
/// by its trailers once they were read. A look that fails is counted where it failed, and the
/// answer is returned all the same.
pub proof fn lemma_answers_are_looked_at_when_they_are_good(
    state: CallState,
    event: CallEvent,
    next: CallState,
    action: CallAction,
)
    requires
        state.expects(event),
        state.leads_to(event, next, action),
    ensures
        action is ReadResponse <==> (event matches CallEvent::Answered { headers, post_commit }
            && post_commit && status_text(headers) == "0"@),
        action is ReadResponse ==> next == CallState::ReadingResponse,
        action is EvaluatePostCommit <==> (event matches CallEvent::ResponseRead {
            headers,
            trailers,
        } && (trailers matches Ok(read) && final_status_text(headers, read) == "0"@)),
        action is EvaluatePostCommit ==> next == CallState::PostCommit,
        action == CallAction::Return(Some(FailureStage::ResponseBody)) <==> (event matches
            CallEvent::ResponseRead { trailers, .. } && trailers is Err),
        action == CallAction::Return(Some(FailureStage::Evaluation)) <==> (event matches
            CallEvent::PostCommitEvaluated(outcome) && outcome is Err),
        action is Return <==> next == CallState::Ended && (event is Answered || event is ResponseRead
            || event is PostCommitEvaluated),
{
}

/// What the interceptors are told of an answer grows with its frames: data is put behind what was
/// read before, trailers stand in for those before them, and neither touches the other.
pub proof fn lemma_frames_add_up<E>(frames: Seq<Result<ObservedFrame, E>>, frame: ObservedFrame)
    ensures
        ({
            let more = frames.push(Ok(frame));
            &&& frame matches ObservedFrame::Data(bytes) ==> data_bytes(more) == data_bytes(frames)
                + bytes@ && last_trailers(more) == last_trailers(frames)
            &&& frame matches ObservedFrame::Trailers(trailers) ==> data_bytes(more) == data_bytes(
                frames,
            ) && last_trailers(more) == Some(trailers)
            &&& data_bytes(Seq::<Result<ObservedFrame, E>>::empty()) == Seq::<u8>::empty()
            &&& last_trailers(Seq::<Result<ObservedFrame, E>>::empty()) is None
            &&& !broken(more)
        }),
{
    assert(frames.push(Ok(frame)).drop_last() =~= frames);
}

/// A body that is too large is refused as such, and one that failed is told as an internal error
/// with the reason.
pub proof fn lemma_bodies_are_refused_for_their_reason(error: BodyError)
    ensures
        body_refusal(error).0 == Code::ResourceExhausted <==> error is TooLarge,
        body_refusal(error).0 == Code::Internal <==> error is Failed,
        error matches BodyError::Failed(why) ==> body_refusal(error).1
            == "failed to read gRPC request body for interceptor evaluation: "@ + why@,
{
}

} // verus!
