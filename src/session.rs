//! The negotiation state of one peer session.
use vstd::prelude::*;

verus! {

/// Where a session stands in its negotiation with the remote peer.
#[derive(Debug, Clone, Copy, PartialEq, Eq, Structural)]
pub enum SessionPhase {
    /// The peer connection exists; no offer has been applied yet.
    Created,
    /// An offer was applied and answered; connectivity is being established.
    Negotiating,
    /// The peer connection reports that it is connected.
    Connected,
    /// The peer connection failed or was closed; nothing more is applied.
    Closed,
}

/// What the peer connection reports about its own state.
#[derive(Debug, Clone, Copy, PartialEq, Eq, Structural)]
pub enum ConnectionState {
    Connecting,
    Connected,
    Disconnected,
    Failed,
    Closed,
}

/// The phase after an offer has been applied in `phase`, or `None` where the
/// session takes no more offers.
pub open spec fn phase_after_offer(phase: SessionPhase) -> Option<SessionPhase> {
    match phase {
        SessionPhase::Closed => None,
        _ => Some(SessionPhase::Negotiating),
    }
}

/// Whether a remote ICE candidate is applied in `phase`: from the first offer
/// on, including after the connection is up (trickle ICE).
pub open spec fn takes_candidates(phase: SessionPhase) -> bool {
    phase == SessionPhase::Negotiating || phase == SessionPhase::Connected
}

/// The phase after the peer connection reports `state` in `phase`.
pub open spec fn phase_after_state(phase: SessionPhase, state: ConnectionState) -> SessionPhase {
    match state {
        ConnectionState::Failed | ConnectionState::Closed => SessionPhase::Closed,
        ConnectionState::Connected => if phase == SessionPhase::Closed {
            SessionPhase::Closed
        } else {
            SessionPhase::Connected
        },
        _ => phase,
    }
}

impl SessionPhase {
    /// The phase after applying an offer, or `None` if the session is closed.
    /// Further offers after the first start another negotiation round.
    pub fn after_offer(self) -> (r: Option<SessionPhase>)
        ensures
            r == phase_after_offer(self),
    {
        match self {
            SessionPhase::Closed => None,
            _ => Some(SessionPhase::Negotiating),
        }
    }

    /// Whether a remote ICE candidate should be applied now.
    pub fn accepts_candidate(self) -> (r: bool)
        ensures
            r == takes_candidates(self),
    {
        match self {
            SessionPhase::Negotiating | SessionPhase::Connected => true,
            _ => false,
        }
    }

    /// The phase after the peer connection reports `state`.  A failed or
    /// closed connection closes the session for good.
    pub fn after_state(self, state: ConnectionState) -> (r: SessionPhase)
        ensures
            r == phase_after_state(self, state),
    {
        match state {
            ConnectionState::Failed | ConnectionState::Closed => SessionPhase::Closed,
            ConnectionState::Connected => {
                if self == SessionPhase::Closed {
                    SessionPhase::Closed
                } else {
                    SessionPhase::Connected
                }
            },
            _ => self,
        }
    }

    /// Whether the session is over and should leave the registry.
    pub fn is_closed(self) -> (r: bool)
        ensures
            r == (self == SessionPhase::Closed),
    {
        self == SessionPhase::Closed
    }
}

/// Once closed, a session stays closed whatever the connection reports, and
/// takes neither offers nor candidates.
pub proof fn lemma_closed_is_final(state: ConnectionState)
    ensures
        phase_after_state(SessionPhase::Closed, state) == SessionPhase::Closed,
        phase_after_offer(SessionPhase::Closed) is None,
        !takes_candidates(SessionPhase::Closed),
{
}

} // verus!
