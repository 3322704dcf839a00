use webrtc_proxy::client::{dispatch, dispatch_inbound, ClientAction, Link, SignalingClient, RETRY_DELAY_MS};
use webrtc_proxy::registry::SessionRegistry;
use webrtc_proxy::signaling::{
    Answer, Candidate, Connect, Connected, Hello, Offer, Payload, PayloadData, Signal, Welcome,
};

fn from_viewer(session_id: Option<&str>, payload: PayloadData) -> Signal {
    Signal::Payload(Payload {
        from: "viewer".to_string(),
        to: "proxy".to_string(),
        session_id: session_id.map(|s| s.to_string()),
        payload,
    })
}

fn connect(url: &str) -> Signal {
    from_viewer(None, PayloadData::Connect(Connect { url: url.to_string() }))
}

fn offer(session_id: &str, sdp: &str) -> Signal {
    from_viewer(Some(session_id), PayloadData::Offer(Offer { sdp: sdp.to_string() }))
}

fn candidate() -> Candidate {
    Candidate {
        candidate: "candidate:1 1 UDP 2122252543 192.0.2.1 54321 typ host".to_string(),
        sdp_mid: Some("0".to_string()),
        sdp_m_line_index: Some(0),
        username_fragment: None,
    }
}

#[test]
fn connect_then_offer_is_applied_and_answered() {
    let client = SignalingClient::new("proxy".to_string());
    let mut reg: SessionRegistry<u32> = SessionRegistry::new();
    let action = dispatch(&reg, &connect("rtsp://camera/stream"), "s-1".to_string(), true);
    assert_eq!(
        action,
        ClientAction::OpenSession {
            session_id: "s-1".to_string(),
            remote: "viewer".to_string(),
            url: "rtsp://camera/stream".to_string()
        }
    );
    let reply = client.register_session(&mut reg, "s-1".to_string(), "viewer".to_string(), 10);
    assert_eq!(
        reply,
        Some(Signal::Payload(Payload {
            from: "proxy".to_string(),
            to: "viewer".to_string(),
            session_id: None,
            payload: PayloadData::Connected(Connected { session_id: "s-1".to_string() }),
        }))
    );
    let action = dispatch(&reg, &offer("s-1", "v=0 offer"), "unused".to_string(), false);
    assert_eq!(
        action,
        ClientAction::ApplyOffer {
            session_id: "s-1".to_string(),
            remote: "viewer".to_string(),
            sdp: "v=0 offer".to_string()
        }
    );
    let answer = client.answer_message("viewer".to_string(), "s-1".to_string(), "v=0 answer".to_string());
    assert_eq!(
        answer,
        Signal::Payload(Payload {
            from: "proxy".to_string(),
            to: "viewer".to_string(),
            session_id: Some("s-1".to_string()),
            payload: PayloadData::Answer(Answer { sdp: "v=0 answer".to_string() }),
        })
    );
}

#[test]
fn offer_for_unknown_session_is_skipped() {
    let reg: SessionRegistry<u32> = SessionRegistry::new();
    assert_eq!(dispatch(&reg, &offer("nope", "v=0"), "x".to_string(), true), ClientAction::Skip);
    let no_id = from_viewer(None, PayloadData::Offer(Offer { sdp: "v=0".to_string() }));
    assert_eq!(dispatch(&reg, &no_id, "x".to_string(), true), ClientAction::Skip);
}

#[test]
fn two_connects_get_distinct_sessions() {
    let client = SignalingClient::new("proxy".to_string());
    let mut reg: SessionRegistry<u32> = SessionRegistry::new();
    let first = dispatch_inbound(&reg, &connect("rtsp://camera/one"));
    let first_id = match first {
        ClientAction::OpenSession { session_id, .. } => session_id,
        other => panic!("unexpected {:?}", other),
    };
    assert_eq!(first_id.len(), 36);
    assert!(client.register_session(&mut reg, first_id.clone(), "viewer".to_string(), 1).is_some());
    let second = dispatch_inbound(&reg, &connect("rtsp://camera/two"));
    let second_id = match second {
        ClientAction::OpenSession { session_id, .. } => session_id,
        other => panic!("unexpected {:?}", other),
    };
    assert_ne!(first_id, second_id);
    assert!(client.register_session(&mut reg, second_id.clone(), "viewer".to_string(), 2).is_some());
    assert_eq!(reg.len(), 2);
    assert_eq!(reg.lookup(&first_id), Some(&1));
    assert_eq!(reg.lookup(&second_id), Some(&2));
    match dispatch(&reg, &offer(&first_id, "v=0"), "x".to_string(), false) {
        ClientAction::ApplyOffer { session_id, .. } => assert_eq!(session_id, first_id),
        other => panic!("unexpected {:?}", other),
    }
}

#[test]
fn taken_session_id_is_not_reused() {
    let client = SignalingClient::new("proxy".to_string());
    let mut reg: SessionRegistry<u32> = SessionRegistry::new();
    client.register_session(&mut reg, "s-1".to_string(), "viewer".to_string(), 1);
    assert_eq!(dispatch(&reg, &connect("rtsp://camera/stream"), "s-1".to_string(), true), ClientAction::Skip);
    assert_eq!(client.register_session(&mut reg, "s-1".to_string(), "other".to_string(), 2), None);
    assert_eq!(reg.lookup(&"s-1".to_string()), Some(&1));
}

#[test]
fn malformed_url_is_skipped() {
    let reg: SessionRegistry<u32> = SessionRegistry::new();
    assert_eq!(dispatch_inbound(&reg, &connect("not a url")), ClientAction::Skip);
    assert_eq!(dispatch(&reg, &connect("rtsp://camera"), "s".to_string(), false), ClientAction::Skip);
}

#[test]
fn candidate_goes_to_its_session() {
    let mut reg: SessionRegistry<u32> = SessionRegistry::new();
    reg.insert("s-1".to_string(), 1);
    let msg = from_viewer(Some("s-1"), PayloadData::Candidate(candidate()));
    assert_eq!(
        dispatch(&reg, &msg, "x".to_string(), false),
        ClientAction::ApplyCandidate { session_id: "s-1".to_string(), candidate: candidate() }
    );
    let unknown = from_viewer(Some("s-2"), PayloadData::Candidate(candidate()));
    assert_eq!(dispatch(&reg, &unknown, "x".to_string(), false), ClientAction::Skip);
}

#[test]
fn informational_messages_are_skipped() {
    let reg: SessionRegistry<u32> = SessionRegistry::new();
    let msgs = vec![
        Signal::Hello(Hello { subject: "someone".to_string() }),
        Signal::Welcome(Welcome { peer_id: "proxy".to_string() }),
        from_viewer(Some("s"), PayloadData::Connected(Connected { session_id: "s".to_string() })),
        from_viewer(Some("s"), PayloadData::Answer(Answer { sdp: "v=0".to_string() })),
    ];
    for m in &msgs {
        assert_eq!(dispatch(&reg, m, "x".to_string(), true), ClientAction::Skip);
    }
}

#[test]
fn reconnect_sends_one_hello_and_keeps_sessions() {
    let mut client = SignalingClient::new("proxy".to_string());
    let mut reg: SessionRegistry<u32> = SessionRegistry::new();
    let hello = client.on_transport_up();
    assert_eq!(hello, Signal::Hello(Hello { subject: "proxy".to_string() }));
    client.register_session(&mut reg, "s-1".to_string(), "viewer".to_string(), 1);
    assert_eq!(client.on_transport_down(), RETRY_DELAY_MS);
    assert_eq!(RETRY_DELAY_MS, 3000);
    assert_eq!(client.link, Link::Down);
    let again = client.on_transport_up();
    assert_eq!(again, Signal::Hello(Hello { subject: "proxy".to_string() }));
    assert_eq!(client.link, Link::Up);
    assert_eq!(reg.len(), 1);
    assert_eq!(reg.lookup(&"s-1".to_string()), Some(&1));
}

#[test]
fn outbound_candidate_message() {
    let client = SignalingClient::new("proxy".to_string());
    let msg = client.candidate_message("viewer".to_string(), "s-1".to_string(), candidate());
    assert_eq!(
        msg,
        Signal::Payload(Payload {
            from: "proxy".to_string(),
            to: "viewer".to_string(),
            session_id: Some("s-1".to_string()),
            payload: PayloadData::Candidate(candidate()),
        })
    );
}
