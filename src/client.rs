//! The signaling client's decisions: what to announce when the transport
//! comes up, how long to wait after it drops, and what each inbound message
//! asks of the session layer.  The caller runs the transport and the peer
//! connections and reports back.
use vstd::prelude::*;
use crate::registry::SessionRegistry;
use crate::signaling::{Candidate, Connected, Hello, Payload, PayloadData, Signal, Answer};

verus! {

/// The pause before reconnecting to the signaling service, in milliseconds.
pub const RETRY_DELAY_MS: u64 = 3000;

/// Whether the transport to the signaling service is up.
#[derive(Debug, Clone, Copy, PartialEq, Eq, Structural)]
pub enum Link {
    Down,
    Up,
}

/// What the session layer is asked to do about one inbound message.
#[derive(Debug, Clone, PartialEq, Eq)]
pub enum ClientAction {
    /// Create a session relaying `url` to `remote`, register it under
    /// `session_id` and reply `Connected`.
    OpenSession { session_id: String, remote: String, url: String },
    /// Apply the offer to the session and reply with its answer.
    ApplyOffer { session_id: String, remote: String, sdp: String },
    /// Add the remote ICE candidate to the session; no reply.
    ApplyCandidate { session_id: String, candidate: Candidate },
    /// Nothing to do: the message is informational, or names no known session.
    Skip,
}

/// Whether `url` is an absolute URL, as the URL parser decides.
pub uninterp spec fn parses_as_url(url: Seq<char>) -> bool;

/// Relies on url::Url::parse: `Ok` exactly when the text is an absolute URL.
#[verifier::external_body]
fn url_parses(url: &String) -> (r: bool)
    ensures
        r == parses_as_url(url@),
{
    url::Url::parse(url.as_str()).is_ok()
}

/// Relies on uuid::Uuid::new_v4 and its Display: a random version-4
/// identifier in its 36-character hyphenated form.
#[verifier::external_body]
fn new_session_id() -> (r: String)
    ensures
        r@.len() == 36,
{
    uuid::Uuid::new_v4().to_string()
}

/// What an inbound signal asks for, given the identifiers of the registered
/// sessions, the identifier a new session would get, and whether the URL of a
/// `Connect` parses.
pub open spec fn decide(known: Set<Seq<char>>, signal: Signal, fresh_id: String, url_ok: bool) -> ClientAction {
    match signal {
        Signal::Payload(p) => match p.payload {
            PayloadData::Connect(c) => if url_ok && !known.contains(fresh_id@) {
                ClientAction::OpenSession { session_id: fresh_id, remote: p.from, url: c.url }
            } else {
                ClientAction::Skip
            },
            PayloadData::Offer(o) => match p.session_id {
                Some(sid) => if known.contains(sid@) {
                    ClientAction::ApplyOffer { session_id: sid, remote: p.from, sdp: o.sdp }
                } else {
                    ClientAction::Skip
                },
                None => ClientAction::Skip,
            },
            PayloadData::Candidate(c) => match p.session_id {
                Some(sid) => if known.contains(sid@) {
                    ClientAction::ApplyCandidate { session_id: sid, candidate: c }
                } else {
                    ClientAction::Skip
                },
                None => ClientAction::Skip,
            },
            _ => ClientAction::Skip,
        },
        _ => ClientAction::Skip,
    }
}

/// Whether `signal` is a `Connect` whose URL parses.
pub open spec fn connect_url_ok(signal: Signal) -> bool {
    match signal {
        Signal::Payload(p) => match p.payload {
            PayloadData::Connect(c) => parses_as_url(c.url@),
            _ => false,
        },
        _ => false,
    }
}

/// The session layer's task for `signal`, given the identifier a new session
/// would get and whether the URL of a `Connect` parses.  A `Connect` opens a
/// session unless its URL is malformed or the identifier is taken; an `Offer`
/// or `Candidate` acts on the session it names, if registered; everything
/// else is informational.
pub fn dispatch<H>(registry: &SessionRegistry<H>, signal: &Signal, fresh_id: String, url_ok: bool) -> (r: ClientAction)
    requires
        registry.wf(),
    ensures
        r == decide(registry@.dom(), *signal, fresh_id, url_ok),
{
    match signal {
        Signal::Payload(p) => match &p.payload {
            PayloadData::Connect(c) => {
                if url_ok && !registry.contains(&fresh_id) {
                    ClientAction::OpenSession { session_id: fresh_id, remote: p.from.clone(), url: c.url.clone() }
                } else {
                    ClientAction::Skip
                }
            },
            PayloadData::Offer(o) => match &p.session_id {
                Some(sid) => {
                    if registry.contains(sid) {
                        ClientAction::ApplyOffer { session_id: sid.clone(), remote: p.from.clone(), sdp: o.sdp.clone() }
                    } else {
                        ClientAction::Skip
                    }
                },
                None => ClientAction::Skip,
            },
            PayloadData::Candidate(c) => match &p.session_id {
                Some(sid) => {
                    if registry.contains(sid) {
                        ClientAction::ApplyCandidate { session_id: sid.clone(), candidate: c.duplicate() }
                    } else {
                        ClientAction::Skip
                    }
                },
                None => ClientAction::Skip,
            },
            _ => ClientAction::Skip,
        },
        _ => ClientAction::Skip,
    }
}

/// The session layer's task for an inbound signal: draws a fresh session
/// identifier and checks the URL of a `Connect`, then decides as `dispatch`.
pub fn dispatch_inbound<H>(registry: &SessionRegistry<H>, signal: &Signal) -> (r: ClientAction)
    requires
        registry.wf(),
    ensures
        exists|id: String| id@.len() == 36 && r == decide(registry@.dom(), *signal, id, connect_url_ok(*signal)),
{
    let url_ok = match signal {
        Signal::Payload(p) => match &p.payload {
            PayloadData::Connect(c) => url_parses(&c.url),
            _ => false,
        },
        _ => false,
    };
    assert(url_ok == connect_url_ok(*signal));
    let id = new_session_id();
    let ghost drawn = id;
    let r = dispatch(registry, signal, id, url_ok);
    assert(drawn@.len() == 36 && r == decide(registry@.dom(), *signal, drawn, connect_url_ok(*signal)));
    r
}

/// The signaling client: the identity it announces and the state of its
/// transport.
pub struct SignalingClient {
    pub peer: String,
    pub link: Link,
}

/// The greeting that announces `peer`.
pub open spec fn hello_of(peer: String) -> Signal {
    Signal::Hello(Hello { subject: peer })
}

/// A message from `local` to `remote` about `session_id`.
pub open spec fn routed(local: String, remote: String, session_id: Option<String>, payload: PayloadData) -> Signal {
    Signal::Payload(Payload { from: local, to: remote, session_id, payload })
}

/// The transport's state after it comes up (`up`) or goes down, with the
/// messages sent on that event.  The session registry plays no part: sessions
/// are keyed independently of the signaling transport.
pub open spec fn transport_event(c: SignalingClient, up: bool) -> (SignalingClient, Seq<Signal>) {
    if up {
        (SignalingClient { peer: c.peer, link: Link::Up }, seq![hello_of(c.peer)])
    } else {
        (SignalingClient { peer: c.peer, link: Link::Down }, Seq::empty())
    }
}

impl SignalingClient {
    /// A client announcing itself as `peer`, not yet connected.
    pub fn new(peer: String) -> (r: Self)
        ensures
            r.peer == peer,
            r.link == Link::Down,
    {
        SignalingClient { peer, link: Link::Down }
    }

    /// The transport came up: the client is connected and sends one `Hello`
    /// naming itself.
    pub fn on_transport_up(&mut self) -> (r: Signal)
        ensures
            (*final(self), seq![r]) == transport_event(*old(self), true),
    {
        self.link = Link::Up;
        Signal::Hello(Hello { subject: self.peer.clone() })
    }

    /// The transport failed or ended: the client is disconnected and waits
    /// the returned number of milliseconds before reconnecting.
    pub fn on_transport_down(&mut self) -> (r: u64)
        ensures
            *final(self) == transport_event(*old(self), false).0,
            r == RETRY_DELAY_MS,
    {
        self.link = Link::Down;
        RETRY_DELAY_MS
    }

    /// Registers a session created for `remote` and returns the `Connected`
    /// reply.  An identifier already registered is refused: the registry is
    /// unchanged and nothing is sent.
    pub fn register_session<H>(&self, registry: &mut SessionRegistry<H>, session_id: String, remote: String, handle: H) -> (r: Option<Signal>)
        requires
            old(registry).wf(),
        ensures
            final(registry).wf(),
            old(registry)@.contains_key(session_id@) ==> r is None && final(registry)@ == old(registry)@,
            !old(registry)@.contains_key(session_id@) ==> final(registry)@ == old(registry)@.insert(session_id@, handle)
                && r == Some(routed(self.peer, remote, None, PayloadData::Connected(Connected { session_id }))),
    {
        let reply_id = session_id.clone();
        if registry.insert(session_id, handle) {
            Some(Signal::Payload(Payload {
                from: self.peer.clone(),
                to: remote,
                session_id: None,
                payload: PayloadData::Connected(Connected { session_id: reply_id }),
            }))
        } else {
            None
        }
    }

    /// The reply that carries the answer `sdp` of session `session_id` to
    /// `remote`.
    pub fn answer_message(&self, remote: String, session_id: String, sdp: String) -> (r: Signal)
        ensures
            r == routed(self.peer, remote, Some(session_id), PayloadData::Answer(Answer { sdp })),
    {
        Signal::Payload(Payload {
            from: self.peer.clone(),
            to: remote,
            session_id: Some(session_id),
            payload: PayloadData::Answer(Answer { sdp }),
        })
    }

    /// The message that forwards a locally discovered ICE candidate of
    /// session `session_id` to `remote`.
    pub fn candidate_message(&self, remote: String, session_id: String, candidate: Candidate) -> (r: Signal)
        ensures
            r == routed(self.peer, remote, Some(session_id), PayloadData::Candidate(candidate)),
    {
        Signal::Payload(Payload {
            from: self.peer.clone(),
            to: remote,
            session_id: Some(session_id),
            payload: PayloadData::Candidate(candidate),
        })
    }
}

/// After a `Connect` opens a session and the session is registered under
/// the identifier it was given, an `Offer` naming that identifier is applied
/// to that session, and the answer goes back to the peer that made the offer.
/// An `Offer` naming an identifier that is not registered is skipped: no
/// reply, no error.
pub proof fn lemma_connect_then_offer<H>(
    sessions: Map<Seq<char>, H>,
    connect: Signal,
    fresh_id: String,
    url_ok: bool,
    handle: H,
    offer: Signal,
    next_id: String,
    next_url_ok: bool,
)
    requires
        decide(sessions.dom(), connect, fresh_id, url_ok) is OpenSession,
        offer matches Signal::Payload(p) && p.payload is Offer && p.session_id is Some,
    ensures
        ({
            let registered = sessions.insert(fresh_id@, handle);
            let p = offer->Payload_0;
            let sid = p.session_id->Some_0;
            &&& sid@ == fresh_id@ ==> decide(registered.dom(), offer, next_id, next_url_ok)
                == ClientAction::ApplyOffer { session_id: sid, remote: p.from, sdp: p.payload->Offer_0.sdp }
            &&& !registered.contains_key(sid@) ==> decide(registered.dom(), offer, next_id, next_url_ok)
                == ClientAction::Skip
        }),
{
}

/// Two `Connect` messages, each opening a session that is registered before
/// the next one is handled, get distinct identifiers, and both sessions stay
/// registered with their own handles; an `Offer` naming either one acts on
/// that session alone.
pub proof fn lemma_two_connects<H>(
    sessions: Map<Seq<char>, H>,
    first: Signal,
    first_id: String,
    first_ok: bool,
    first_handle: H,
    second: Signal,
    second_id: String,
    second_ok: bool,
    second_handle: H,
)
    requires
        decide(sessions.dom(), first, first_id, first_ok) is OpenSession,
        decide(sessions.insert(first_id@, first_handle).dom(), second, second_id, second_ok) is OpenSession,
    ensures
        ({
            let both = sessions.insert(first_id@, first_handle).insert(second_id@, second_handle);
            &&& first_id@ != second_id@
            &&& both.contains_key(first_id@) && both[first_id@] == first_handle
            &&& both.contains_key(second_id@) && both[second_id@] == second_handle
            &&& forall|offer: Signal, id: String, ok: bool|
                #![trigger decide(both.dom(), offer, id, ok)]
                decide(both.dom(), offer, id, ok) matches ClientAction::ApplyOffer { session_id, .. }
                    ==> (offer->Payload_0.session_id == Some(session_id))
        }),
{
}

/// Losing the transport and connecting again sends exactly one message, the
/// `Hello` that names the same peer, and leaves the client connected under
/// the same identity; the registered sessions are not involved.
pub proof fn lemma_reconnect_sends_one_hello(c: SignalingClient)
    ensures
        ({
            let (down, sent_down) = transport_event(c, false);
            let (up, sent_up) = transport_event(down, true);
            &&& sent_down + sent_up == seq![hello_of(c.peer)]
            &&& up.peer == c.peer
            &&& up.link == Link::Up
        }),
{
    let (down, sent_down) = transport_event(c, false);
    let (up, sent_up) = transport_event(down, true);
    assert(sent_down + sent_up =~= seq![hello_of(c.peer)]);
}

} // verus!
