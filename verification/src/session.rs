//! The life of a tunnel connection and of the requests forwarded through
//! it: the decisions taken on each event, separated from the I/O that
//! produces the events and carries out the actions.
use vstd::prelude::*;
use crate::error::AppError;
use crate::health::HealthStatus;

verus! {

/// Where a tunnel connection is in its life.
#[derive(Clone, Copy, Debug, PartialEq, Eq, Structural)]
pub enum SessionPhase {
    /// Connected; the first message must register the tunnel.
    AwaitingRegister,
    /// Registered: requests are forwarded and reports accepted.
    Active,
    /// Finished.
    Closed,
}

/// Something that happened on a tunnel connection.
#[derive(Clone, Copy, Debug, PartialEq, Eq, Structural)]
pub enum SessionEvent {
    /// A text message that is not a valid control message.
    Unparsable,
    /// A registration message whose token was (`true`) or was not verified.
    Register(bool),
    /// A health report from the client, with the status it implies.
    HealthReport(HealthStatus),
    /// A response to a forwarded request.
    Response,
    /// Any other control message.
    OtherMessage,
    /// A frame that is not a text message.
    NonTextFrame,
    /// Forwarding a queued request to the client failed.
    SendFailed,
    /// Receiving from the client failed.
    ReceiveError,
    /// The client closed the connection.
    Disconnected,
    /// Nothing arrived from the client in time.
    TimedOut,
}

/// What the connection handler does in response to an event.
#[derive(Clone, Copy, Debug, PartialEq, Eq, Structural)]
pub enum SessionAction {
    /// Register the tunnel: mark it online and start forwarding to it.
    Activate,
    /// Record the reported status in the tunnel's health record.
    UpdateHealth(HealthStatus),
    /// Hand the response to the request that is waiting for it.
    DeliverResponse,
    /// Nothing.
    Ignore,
    /// Stop, and have the tunnel unregistered and marked offline.
    Cleanup,
    /// Stop without cleaning up (an unreadable first message).
    Abandon,
}

/// The next phase and the action for `event` in `phase`.
pub open spec fn session_transition(phase: SessionPhase, event: SessionEvent) -> (SessionPhase, SessionAction) {
    match phase {
        SessionPhase::AwaitingRegister => match event {
            SessionEvent::Unparsable => (SessionPhase::Closed, SessionAction::Abandon),
            SessionEvent::Register(true) => (SessionPhase::Active, SessionAction::Activate),
            _ => (SessionPhase::Closed, SessionAction::Cleanup),
        },
        SessionPhase::Active => match event {
            SessionEvent::HealthReport(s) => (SessionPhase::Active, SessionAction::UpdateHealth(s)),
            SessionEvent::Response => (SessionPhase::Active, SessionAction::DeliverResponse),
            SessionEvent::SendFailed | SessionEvent::ReceiveError | SessionEvent::Disconnected
            | SessionEvent::TimedOut => (SessionPhase::Closed, SessionAction::Cleanup),
            _ => (SessionPhase::Active, SessionAction::Ignore),
        },
        SessionPhase::Closed => (SessionPhase::Closed, SessionAction::Ignore),
    }
}

/// Takes one step of a tunnel connection.
pub fn session_step(phase: SessionPhase, event: SessionEvent) -> (r: (SessionPhase, SessionAction))
    ensures
        r == session_transition(phase, event),
{
    match phase {
        SessionPhase::AwaitingRegister => match event {
            SessionEvent::Unparsable => (SessionPhase::Closed, SessionAction::Abandon),
            SessionEvent::Register(valid) => {
                if valid {
                    (SessionPhase::Active, SessionAction::Activate)
                } else {
                    (SessionPhase::Closed, SessionAction::Cleanup)
                }
            },
            _ => (SessionPhase::Closed, SessionAction::Cleanup),
        },
        SessionPhase::Active => match event {
            SessionEvent::HealthReport(s) => (SessionPhase::Active, SessionAction::UpdateHealth(s)),
            SessionEvent::Response => (SessionPhase::Active, SessionAction::DeliverResponse),
            SessionEvent::SendFailed | SessionEvent::ReceiveError | SessionEvent::Disconnected
            | SessionEvent::TimedOut => (SessionPhase::Closed, SessionAction::Cleanup),
            _ => (SessionPhase::Active, SessionAction::Ignore),
        },
        SessionPhase::Closed => (SessionPhase::Closed, SessionAction::Ignore),
    }
}

/// The actions taken for `events`, one per event, starting in `phase`.
pub open spec fn session_actions(phase: SessionPhase, events: Seq<SessionEvent>) -> Seq<SessionAction>
    decreases events.len(),
{
    if events.len() == 0 {
        Seq::empty()
    } else {
        let (next, action) = session_transition(phase, events[0]);
        seq![action] + session_actions(next, events.drop_first())
    }
}

/// An action that ends the connection.
pub open spec fn ends_session(a: SessionAction) -> bool {
    a == SessionAction::Cleanup || a == SessionAction::Abandon
}

/// An action that serves a registered tunnel.
pub open spec fn serves_tunnel(a: SessionAction) -> bool {
    a == SessionAction::DeliverResponse || a is UpdateHealth
}

/// Registration is only granted for a verified token, and only once, at the
/// start of a connection.
pub proof fn lemma_activation_needs_valid_token(phase: SessionPhase, event: SessionEvent)
    ensures
        session_transition(phase, event).1 == SessionAction::Activate ==> phase
            == SessionPhase::AwaitingRegister && event == SessionEvent::Register(true),
{
}

proof fn lemma_actions_len(phase: SessionPhase, events: Seq<SessionEvent>)
    ensures
        session_actions(phase, events).len() == events.len(),
    decreases events.len(),
{
    if events.len() > 0 {
        let (next, _a) = session_transition(phase, events[0]);
        lemma_actions_len(next, events.drop_first());
    }
}

proof fn lemma_actions_unfold(phase: SessionPhase, events: Seq<SessionEvent>)
    requires
        events.len() > 0,
    ensures
        session_actions(phase, events)[0] == session_transition(phase, events[0]).1,
        forall|k: int| 0 < k < events.len() ==> #[trigger] session_actions(phase, events)[k]
            == session_actions(session_transition(phase, events[0]).0, events.drop_first())[k - 1],
{
    let (next, a) = session_transition(phase, events[0]);
    lemma_actions_len(next, events.drop_first());
    assert(session_actions(phase, events) == seq![a] + session_actions(next, events.drop_first()));
}

/// A closed connection stays closed and does nothing more.
pub proof fn lemma_closed_is_final(events: Seq<SessionEvent>)
    ensures
        forall|k: int| 0 <= k < events.len() ==> #[trigger] session_actions(SessionPhase::Closed, events)[k]
            == SessionAction::Ignore,
    decreases events.len(),
{
    if events.len() > 0 {
        lemma_closed_is_final(events.drop_first());
        lemma_actions_unfold(SessionPhase::Closed, events);
    }
}

/// A connection ends at most once, so a tunnel is cleaned up at most once.
pub proof fn lemma_session_ends_once(phase: SessionPhase, events: Seq<SessionEvent>)
    ensures
        forall|i: int, j: int|
            0 <= i < j < events.len() && ends_session(#[trigger] session_actions(phase, events)[i])
                ==> !ends_session(#[trigger] session_actions(phase, events)[j]),
    decreases events.len(),
{
    if events.len() > 0 {
        let (next, a) = session_transition(phase, events[0]);
        let rest = events.drop_first();
        lemma_session_ends_once(next, rest);
        lemma_actions_unfold(phase, events);
        if ends_session(a) {
            assert(next == SessionPhase::Closed);
            lemma_closed_is_final(rest);
        }
        let acts = session_actions(phase, events);
        let tail = session_actions(next, rest);
        assert forall|i: int, j: int|
            0 <= i < j < events.len() && ends_session(#[trigger] acts[i]) implies !ends_session(
            #[trigger] acts[j],
        ) by {
            assert(acts[j] == tail[j - 1]);
            if i > 0 {
                assert(acts[i] == tail[i - 1]);
            }
        }
    }
}

/// Requests and health reports are only served on a connection after its
/// tunnel was registered.
pub proof fn lemma_served_after_activation(phase: SessionPhase, events: Seq<SessionEvent>)
    requires
        phase != SessionPhase::Active,
    ensures
        forall|j: int|
            0 <= j < events.len() && serves_tunnel(#[trigger] session_actions(phase, events)[j])
                ==> exists|i: int| 0 <= i < j && #[trigger] session_actions(phase, events)[i]
                == SessionAction::Activate,
    decreases events.len(),
{
    if events.len() > 0 {
        let (next, a) = session_transition(phase, events[0]);
        let rest = events.drop_first();
        lemma_actions_unfold(phase, events);
        let acts = session_actions(phase, events);
        let tail = session_actions(next, rest);
        if next != SessionPhase::Active {
            lemma_served_after_activation(next, rest);
        }
        assert forall|j: int|
            0 <= j < events.len() && serves_tunnel(#[trigger] acts[j]) implies exists|i: int|
            0 <= i < j && #[trigger] acts[i] == SessionAction::Activate by {
            if j > 0 {
                assert(acts[j] == tail[j - 1]);
                if next == SessionPhase::Active {
                    assert(acts[0] == SessionAction::Activate);
                } else {
                    let i0 = choose|i: int| 0 <= i < j - 1 && #[trigger] tail[i] == SessionAction::Activate;
                    assert(acts[i0 + 1] == tail[i0]);
                }
            }
        }
    }
}

/// The events by which a connection is lost: sending to the client failed,
/// receiving from it failed, it closed the connection, or it fell silent for
/// the timeout.
pub open spec fn connection_lost(e: SessionEvent) -> bool {
    ||| e == SessionEvent::SendFailed
    ||| e == SessionEvent::ReceiveError
    ||| e == SessionEvent::Disconnected
    ||| e == SessionEvent::TimedOut
}

/// A registered tunnel whose connection is lost is cleaned up (unregistered
/// and marked offline) and its connection closed; a registered tunnel's
/// connection only closes when it is lost, so every other event keeps it
/// registered.
pub proof fn lemma_lost_connection_cleaned_up(e: SessionEvent)
    ensures
        connection_lost(e) ==> session_transition(SessionPhase::Active, e) == (
            SessionPhase::Closed,
            SessionAction::Cleanup,
        ),
        session_transition(SessionPhase::Active, e).0 == SessionPhase::Closed <==> connection_lost(e),
        ends_session(session_transition(SessionPhase::Active, e).1) <==> connection_lost(e),
{
}

/// A registered tunnel's health reports are recorded with the status they
/// carry, and its responses are handed to the requests waiting for them,
/// without ending the connection.
pub proof fn lemma_registered_tunnel_served(status: HealthStatus)
    ensures
        session_transition(SessionPhase::Active, SessionEvent::HealthReport(status)) == (
            SessionPhase::Active,
            SessionAction::UpdateHealth(status),
        ),
        session_transition(SessionPhase::Active, SessionEvent::Response) == (
            SessionPhase::Active,
            SessionAction::DeliverResponse,
        ),
{
}

/// Once registered, a tunnel stays registered over any run of events in
/// which its connection is never lost, and is cleaned up at the first event
/// that loses it.
pub proof fn lemma_registered_until_lost(events: Seq<SessionEvent>, k: int)
    requires
        0 <= k < events.len(),
        connection_lost(events[k]),
        forall|j: int| 0 <= j < k ==> !connection_lost(#[trigger] events[j]),
    ensures
        session_actions(SessionPhase::Active, events)[k] == SessionAction::Cleanup,
    decreases k,
{
    lemma_actions_unfold(SessionPhase::Active, events);
    if k > 0 {
        assert(!connection_lost(events[0]));
        let rest = events.drop_first();
        assert forall|j: int| 0 <= j < k - 1 implies !connection_lost(#[trigger] rest[j]) by {
            assert(rest[j] == events[j + 1]);
        }
        lemma_registered_until_lost(rest, k - 1);
    }
}

/// How a tunnel's health record is affected by the outcome of a request.
#[derive(Clone, Copy, Debug, PartialEq, Eq, Structural)]
pub enum HealthEffect {
    Unchanged,
    Success,
    Failure,
}

/// The stages of forwarding a request through a tunnel at which the outcome
/// is decided.
#[derive(Clone, Copy, Debug, PartialEq, Eq, Structural)]
pub enum ExchangeEvent {
    /// The incoming request's body could not be read.
    BodyUnreadable,
    /// The request could not be encoded for the tunnel.
    Unencodable,
    /// The tunnel's channel refused the request.
    SendFailed,
    /// The tunnel answered in time.
    Replied,
    /// The tunnel answered, but its answer is not a valid HTTP response.
    ReplyUnusable,
    /// The tunnel went away before answering.
    ReplyDropped,
    /// No answer arrived within the request timeout.
    TimedOut,
}

/// What forwarding through a tunnel leads to: the effect on the tunnel's
/// health, whether the waiting slot for the response is withdrawn, and the
/// error status the client gets (`None`: the tunnel's response is returned).
#[derive(Clone, Copy, Debug, PartialEq, Eq, Structural)]
pub struct ExchangeOutcome {
    pub health: HealthEffect,
    pub withdraw_pending: bool,
    pub error_status: Option<u16>,
}

pub open spec fn exchange_result(event: ExchangeEvent) -> ExchangeOutcome {
    match event {
        ExchangeEvent::BodyUnreadable => ExchangeOutcome {
            health: HealthEffect::Unchanged,
            withdraw_pending: false,
            error_status: Some(400),
        },
        ExchangeEvent::Unencodable => ExchangeOutcome {
            health: HealthEffect::Unchanged,
            withdraw_pending: false,
            error_status: Some(500),
        },
        ExchangeEvent::SendFailed => ExchangeOutcome {
            health: HealthEffect::Failure,
            withdraw_pending: true,
            error_status: Some(502),
        },
        ExchangeEvent::Replied => ExchangeOutcome {
            health: HealthEffect::Success,
            withdraw_pending: false,
            error_status: None,
        },
        ExchangeEvent::ReplyUnusable => ExchangeOutcome {
            health: HealthEffect::Success,
            withdraw_pending: false,
            error_status: Some(500),
        },
        ExchangeEvent::ReplyDropped => ExchangeOutcome {
            health: HealthEffect::Failure,
            withdraw_pending: true,
            error_status: Some(502),
        },
        ExchangeEvent::TimedOut => ExchangeOutcome {
            health: HealthEffect::Failure,
            withdraw_pending: true,
            error_status: Some(504),
        },
    }
}

/// The outcome of forwarding a request through a tunnel, by the stage at
/// which it was decided.
pub fn exchange_outcome(event: ExchangeEvent) -> (r: ExchangeOutcome)
    ensures
        r == exchange_result(event),
{
    match event {
        ExchangeEvent::BodyUnreadable => ExchangeOutcome {
            health: HealthEffect::Unchanged,
            withdraw_pending: false,
            error_status: Some(400),
        },
        ExchangeEvent::Unencodable => ExchangeOutcome {
            health: HealthEffect::Unchanged,
            withdraw_pending: false,
            error_status: Some(500),
        },
        ExchangeEvent::SendFailed => ExchangeOutcome {
            health: HealthEffect::Failure,
            withdraw_pending: true,
            error_status: Some(502),
        },
        ExchangeEvent::Replied => ExchangeOutcome {
            health: HealthEffect::Success,
            withdraw_pending: false,
            error_status: None,
        },
        ExchangeEvent::ReplyUnusable => ExchangeOutcome {
            health: HealthEffect::Success,
            withdraw_pending: false,
            error_status: Some(500),
        },
        ExchangeEvent::ReplyDropped => ExchangeOutcome {
            health: HealthEffect::Failure,
            withdraw_pending: true,
            error_status: Some(502),
        },
        ExchangeEvent::TimedOut => ExchangeOutcome {
            health: HealthEffect::Failure,
            withdraw_pending: true,
            error_status: Some(504),
        },
    }
}

/// The stages at which the tunnel itself failed the request: its channel
/// refused it, it went away before answering, or it did not answer in time.
pub open spec fn tunnel_failed(e: ExchangeEvent) -> bool {
    e == ExchangeEvent::SendFailed || e == ExchangeEvent::ReplyDropped || e == ExchangeEvent::TimedOut
}

/// The stages at which the tunnel answered.
pub open spec fn tunnel_answered(e: ExchangeEvent) -> bool {
    e == ExchangeEvent::Replied || e == ExchangeEvent::ReplyUnusable
}

/// A tunnel's health counts exactly what the tunnel did: a failure when it
/// failed the request (a timeout included), a success when it answered, and
/// nothing when the request never reached it. The waiting slot for the
/// response is withdrawn exactly when the tunnel failed, as no answer will
/// come; such a request gets a gateway error (502, or 504 for a timeout); and
/// the client gets the tunnel's response only when it answered usably.
pub proof fn lemma_exchange_counts_tunnel_outcome(e: ExchangeEvent)
    ensures
        exchange_result(e).health == HealthEffect::Failure <==> tunnel_failed(e),
        exchange_result(e).health == HealthEffect::Success <==> tunnel_answered(e),
        exchange_result(e).health == HealthEffect::Unchanged <==> !tunnel_failed(e) && !tunnel_answered(e),
        exchange_result(e).withdraw_pending <==> tunnel_failed(e),
        tunnel_failed(e) ==> (exchange_result(e).error_status matches Some(code) && 502 <= code <= 504),
        exchange_result(e).error_status == Some(504u16) <==> e == ExchangeEvent::TimedOut,
        exchange_result(e).error_status is None <==> e == ExchangeEvent::Replied,
{
}

/// The ways the direct route `/tunnel/{id}/{path}`, which forwards to a
/// tunnel by its id, can fail.
#[derive(Clone, Copy, Debug, PartialEq, Eq, Structural)]
pub enum DirectEvent {
    /// No tunnel is registered under the id.
    NotRegistered,
    /// The tunnel's channel refused the request.
    SendFailed,
    /// The tunnel went away before answering.
    ReplyDropped,
}

pub open spec fn direct_result(event: DirectEvent) -> AppError {
    match event {
        DirectEvent::NotRegistered => AppError::TunnelNotFound,
        DirectEvent::SendFailed => AppError::TunnelSendError,
        DirectEvent::ReplyDropped => AppError::TunnelResponseError,
    }
}

/// The error the direct route answers with when it fails with `event`.
pub fn direct_outcome(event: DirectEvent) -> (r: AppError)
    ensures
        r == direct_result(event),
{
    match event {
        DirectEvent::NotRegistered => AppError::TunnelNotFound,
        DirectEvent::SendFailed => AppError::TunnelSendError,
        DirectEvent::ReplyDropped => AppError::TunnelResponseError,
    }
}

/// The outcome of forwarding a request to the cloud backend.
#[derive(Clone, Copy, Debug, PartialEq, Eq, Structural)]
pub enum CloudEvent {
    /// The incoming request's body could not be read.
    BodyUnreadable,
    /// The backend URL built for the request is not a valid URI.
    BadTarget,
    /// The backend answered.
    Answered,
    /// The backend's answer body could not be read.
    AnswerUnreadable,
    /// The request to the backend failed.
    Failed,
    /// The backend did not answer within the request timeout.
    TimedOut,
}

pub open spec fn cloud_result(event: CloudEvent) -> Option<u16> {
    match event {
        CloudEvent::BodyUnreadable => Some(400),
        CloudEvent::BadTarget => Some(400),
        CloudEvent::Answered => None,
        CloudEvent::AnswerUnreadable => Some(500),
        CloudEvent::Failed => Some(502),
        CloudEvent::TimedOut => Some(504),
    }
}

/// The error status the client gets when forwarding to the cloud backend
/// ends with `event` (`None`: the backend's answer is returned).
pub fn cloud_outcome(event: CloudEvent) -> (r: Option<u16>)
    ensures
        r == cloud_result(event),
{
    match event {
        CloudEvent::BodyUnreadable => Some(400),
        CloudEvent::BadTarget => Some(400),
        CloudEvent::Answered => None,
        CloudEvent::AnswerUnreadable => Some(500),
        CloudEvent::Failed => Some(502),
        CloudEvent::TimedOut => Some(504),
    }
}


/// The outcome of the relay forwarding a request to a tunnel or to its
/// fallback backend.
#[derive(Clone, Copy, Debug, PartialEq, Eq, Structural)]
pub enum RelayEvent {
    /// The tunnel's channel refused the request.
    SendFailed,
    /// The tunnel went away without answering.
    NoReply,
    /// The tunnel answered.
    Replied,
    /// The fallback backend could not be reached.
    FallbackFailed,
    /// The fallback backend answered.
    FallbackAnswered,
}

/// Whether the relay withdraws the waiting slot for the response, and the
/// error status the client gets (`None`: the answer is returned).
pub open spec fn relay_result(event: RelayEvent) -> (bool, Option<u16>) {
    match event {
        RelayEvent::SendFailed => (true, Some(500)),
        RelayEvent::NoReply => (true, Some(500)),
        RelayEvent::Replied => (false, None),
        RelayEvent::FallbackFailed => (false, Some(500)),
        RelayEvent::FallbackAnswered => (false, None),
    }
}

/// What the relay does when forwarding ends with `event`.
pub fn relay_outcome(event: RelayEvent) -> (r: (bool, Option<u16>))
    ensures
        r == relay_result(event),
{
    match event {
        RelayEvent::SendFailed => (true, Some(500)),
        RelayEvent::NoReply => (true, Some(500)),
        RelayEvent::Replied => (false, None),
        RelayEvent::FallbackFailed => (false, Some(500)),
        RelayEvent::FallbackAnswered => (false, None),
    }
}

/// The relay withdraws a request's waiting slot exactly when the tunnel
/// will not answer it, and the client gets an answer (the tunnel's or the
/// fallback's) exactly when one arrived.
pub proof fn lemma_relay_settles(e: RelayEvent)
    ensures
        relay_result(e).0 <==> (e == RelayEvent::SendFailed || e == RelayEvent::NoReply),
        relay_result(e).1 is None <==> (e == RelayEvent::Replied || e == RelayEvent::FallbackAnswered),
{
}

/// Forwarding to the cloud returns the backend's answer exactly when it
/// answered; a malformed request or target is the client's error (400), a
/// backend that fails or times out a gateway error (502, 504).
pub proof fn lemma_cloud_settles(e: CloudEvent)
    ensures
        cloud_result(e) is None <==> e == CloudEvent::Answered,
        cloud_result(e) == Some(400u16) <==> (e == CloudEvent::BodyUnreadable || e == CloudEvent::BadTarget),
        cloud_result(e) == Some(502u16) <==> e == CloudEvent::Failed,
        cloud_result(e) == Some(504u16) <==> e == CloudEvent::TimedOut,
{
}

} // verus!
