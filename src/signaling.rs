//! The signaling protocol's messages.  Field names follow the wire format
//! (camelCase on the wire); the `type` tag selects the variant at both the
//! `Signal` and `PayloadData` levels.
use vstd::prelude::*;

verus! {

/// A message exchanged with the signaling service.
#[derive(Debug, Clone, PartialEq, Eq)]
pub enum Signal {
    Hello(Hello),
    Welcome(Welcome),
    Payload(Payload),
}

/// Announces this peer's identity after the transport comes up.
#[derive(Debug, Clone, PartialEq, Eq)]
pub struct Hello {
    pub subject: String,
}

/// The service's greeting, naming the identity it assigned.
#[derive(Debug, Clone, PartialEq, Eq)]
pub struct Welcome {
    pub peer_id: String,
}

/// A message routed between two peers; `session_id` is absent only for
/// `Connect`, which asks for a session to be created.
#[derive(Debug, Clone, PartialEq, Eq)]
pub struct Payload {
    pub from: String,
    pub to: String,
    pub session_id: Option<String>,
    pub payload: PayloadData,
}

/// What a `Payload` carries.
#[derive(Debug, Clone, PartialEq, Eq)]
pub enum PayloadData {
    Connect(Connect),
    Connected(Connected),
    Offer(Offer),
    Answer(Answer),
    Candidate(Candidate),
}

/// Asks for a session that relays the stream at `url`.
#[derive(Debug, Clone, PartialEq, Eq)]
pub struct Connect {
    pub url: String,
}

/// Reports the identifier of a session that was created.
#[derive(Debug, Clone, PartialEq, Eq)]
pub struct Connected {
    pub session_id: String,
}

/// A remote session description, passed through unmodified.
#[derive(Debug, Clone, PartialEq, Eq)]
pub struct Offer {
    pub sdp: String,
}

/// The local session description that answers an offer.
#[derive(Debug, Clone, PartialEq, Eq)]
pub struct Answer {
    pub sdp: String,
}

/// One ICE candidate, passed through unmodified.
#[derive(Debug, Clone, PartialEq, Eq)]
pub struct Candidate {
    pub candidate: String,
    pub sdp_mid: Option<String>,
    pub sdp_m_line_index: Option<u16>,
    pub username_fragment: Option<String>,
}

pub(crate) fn copy_text(s: &Option<String>) -> (r: Option<String>)
    ensures
        r == *s,
{
    match s {
        Some(t) => Some(t.clone()),
        None => None,
    }
}

impl Candidate {
    /// A copy of the candidate, field for field.
    pub(crate) fn duplicate(&self) -> (r: Candidate)
        ensures
            r == *self,
    {
        Candidate {
            candidate: self.candidate.clone(),
            sdp_mid: copy_text(&self.sdp_mid),
            sdp_m_line_index: self.sdp_m_line_index,
            username_fragment: copy_text(&self.username_fragment),
        }
    }
}

} // verus!
