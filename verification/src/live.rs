//! The loop of live sync, decided step by step: what is done next, and what is reported, after
//! each thing that happens.
use vstd::prelude::*;
use vstd::string::*;

use crate::json::Json;
use crate::slack::{SocketModeEnvelope, SocketModeEnvelopeModel};
use crate::sync::{live_step, LiveStep};

verus! {

/// What live sync does at the moment.
#[derive(Clone, Copy, Debug, PartialEq, Eq, Structural)]
pub enum LivePhase {
    /// Opens a socket.
    Connect,
    /// Waits for a message of the socket.
    Receive,
    /// Waits before it connects again.
    Wait,
    /// Nothing any more.
    End,
}

impl LivePhase {
    /// What is done, given whether the run is the current one: a run that is not ends before it
    /// connects or receives again.
    pub open spec fn checked_spec(self, current: bool) -> LivePhase {
        if !current && self != LivePhase::Wait {
            LivePhase::End
        } else {
            self
        }
    }

    /// What is done, given whether the run is the current one: a run that is not ends before it
    /// connects or receives again.
    pub fn checked(self, current: bool) -> (r: LivePhase)
        ensures
            r == self.checked_spec(current),
    {
        if !current && self != LivePhase::Wait {
            LivePhase::End
        } else {
            self
        }
    }
}

/// What happens to live sync.
#[derive(Debug)]
pub enum LiveNews {
    Connected,
    ConnectFailed(String),
    /// A message of the socket came and was acknowledged.
    Received(SocketModeEnvelope),
    /// A message came, and its acknowledgement failed.
    AckFailed(String),
    /// The socket was closed.
    Closed,
    ReceiveFailed(String),
    /// The time to wait is over.
    Waited,
}

/// What follows.
#[derive(Debug)]
pub struct LiveOutcome {
    /// What is done next.
    pub phase: LivePhase,
    /// What went wrong, for the user.
    pub report: Option<String>,
    /// The event that came.
    pub event: Option<Json>,
}

/// The phase that follows: a failure is followed by waiting, waiting by connecting.
pub open spec fn phase_after(news: LiveNews) -> LivePhase {
    match news {
        LiveNews::Connected => LivePhase::Receive,
        LiveNews::Received(_) => LivePhase::Receive,
        LiveNews::Waited => LivePhase::Connect,
        _ => LivePhase::Wait,
    }
}

/// What follows what happened.
pub fn live_transition(news: LiveNews, session_app_id: &Option<String>) -> (r: LiveOutcome)
    ensures
        r.phase == phase_after(news),
        match news {
            LiveNews::ConnectFailed(error) => r.report == Some(error) && r.event is None,
            LiveNews::AckFailed(error) => r.report == Some(error) && r.event is None,
            LiveNews::ReceiveFailed(error) => r.report == Some(error) && r.event is None,
            LiveNews::Received(envelope) => {
                &&& r.event == event_in(envelope.deep_view())
                &&& r.report.deep_view() == mismatch_in(
                    envelope.deep_view(),
                    session_app_id.deep_view(),
                )
            },
            _ => r.report is None && r.event is None,
        },
{
    let mut outcome = LiveOutcome { phase: LivePhase::Wait, report: None, event: None };
    match news {
        LiveNews::Connected => {
            outcome.phase = LivePhase::Receive;
        },
        LiveNews::ConnectFailed(error) => {
            outcome.report = Some(error);
        },
        LiveNews::AckFailed(error) => {
            outcome.report = Some(error);
        },
        LiveNews::ReceiveFailed(error) => {
            outcome.report = Some(error);
        },
        LiveNews::Closed => {},
        LiveNews::Waited => {
            outcome.phase = LivePhase::Connect;
        },
        LiveNews::Received(envelope) => {
            outcome.phase = LivePhase::Receive;
            match live_step(&envelope, session_app_id) {
                LiveStep::Skip => {},
                LiveStep::Mismatch(message) => {
                    outcome.report = Some(message);
                },
                LiveStep::Event(event) => {
                    outcome.event = Some(event);
                },
            }
        },
    }
    outcome
}

/// The event that a message of the socket carries.
pub open spec fn event_in(envelope: SocketModeEnvelopeModel) -> Option<Json> {
    match envelope.payload {
        Some(payload) if envelope.kind == "events_api"@ && payload.kind == "event_callback"@ => Some(
            payload.event,
        ),
        _ => None,
    }
}

/// What a greeting of the socket says of another app than the one that the user signed in with.
pub open spec fn mismatch_in(
    envelope: SocketModeEnvelopeModel,
    session_app_id: Option<Seq<char>>,
) -> Option<Seq<char>> {
    match (session_app_id, crate::sync::greeting_app(envelope)) {
        (Some(expected), Some(live)) if envelope.kind == "hello"@ && envelope.kind
            != "events_api"@ && expected != live => Some(
            "Socket Mode app mismatch: OAuth app "@ + expected + ", app token connected to "@
                + live,
        ),
        _ => None,
    }
}

/// A run that is not the current one does nothing more than wait: whatever happens, it ends at the
/// next step that would connect or receive.
pub proof fn law_old_runs_end(phase: LivePhase)
    ensures
        phase.checked_spec(false) == LivePhase::End || phase.checked_spec(false)
            == LivePhase::Wait,
        phase_after(LiveNews::Waited).checked_spec(false) == LivePhase::End,
        phase.checked_spec(true) == phase,
{
}

} // verus!
