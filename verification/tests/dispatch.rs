use content_exchange::dispatch::{
    classify_topic, Action, Engine, Event, Notice, TopicKind, CHAT_TOPIC, FILE_TOPIC,
    PEER_DISCOVERY_TOPIC, TICK_INTERVAL_SECS, UNSUPPORTED_REQUEST,
};
use content_exchange::membership::PeerId;
use content_exchange::file_exchange::{decode_file_response, encode_file_response};
use content_exchange::framing::FrameError;
use content_exchange::message::{
    FileRequest, FileResponse, GitRequest, GitResponse, Request, Response,
};

fn peer(name: &str) -> PeerId {
    PeerId::from_bytes(name.as_bytes().to_vec())
}

fn gossip(topic: &str, source: Option<&str>, data: &[u8]) -> Event {
    Event::Gossip { topic: topic.to_string(), source: source.map(peer), data: data.to_vec() }
}

fn members(engine: &Engine) -> Vec<PeerId> {
    engine.membership().peers()
}

#[test]
fn topics_have_their_fixed_names() {
    assert_eq!(CHAT_TOPIC, "universal-connectivity");
    assert_eq!(FILE_TOPIC, "universal-connectivity-file");
    assert_eq!(PEER_DISCOVERY_TOPIC, "universal-connectivity-browser-peer-discovery");
    assert_eq!(TICK_INTERVAL_SECS, 15);
}

#[test]
fn topics_are_told_apart() {
    assert_eq!(classify_topic(CHAT_TOPIC), TopicKind::Chat);
    assert_eq!(classify_topic(FILE_TOPIC), TopicKind::File);
    assert_eq!(classify_topic(PEER_DISCOVERY_TOPIC), TopicKind::PeerDiscovery);
    assert_eq!(classify_topic(""), TopicKind::Unknown);
    assert_eq!(classify_topic("universal-connectivity-"), TopicKind::Unknown);
    assert_eq!(classify_topic("universal-connectivity-files"), TopicKind::Unknown);
    assert_eq!(classify_topic("Universal-Connectivity"), TopicKind::Unknown);
}

#[test]
fn new_engine_knows_no_peer() {
    let engine = Engine::new();
    assert!(engine.membership().is_empty());
    assert_eq!(engine.tick_interval(), 15);
    assert_eq!(Engine::with_interval(60).tick_interval(), 60);
}

#[test]
fn announcement_is_fetched_from_the_announcing_peer_only() {
    let mut engine = Engine::new();
    engine.handle(Event::ConnectionEstablished { peer: peer("W") });
    engine.handle(Event::ConnectionEstablished { peer: peer("X") });
    engine.handle(Event::ConnectionEstablished { peer: peer("Z") });

    let actions = engine.handle(gossip(FILE_TOPIC, Some("X"), b"abc123"));
    assert_eq!(
        actions,
        vec![Action::SendRequest {
            peer: peer("X"),
            request: FileRequest { file_id: "abc123".to_string() },
        }]
    );
}

#[test]
fn announcement_from_an_unknown_peer_is_fetched_and_the_peer_observed() {
    let mut engine = Engine::new();
    let actions = engine.on_gossip(FILE_TOPIC.to_string(), Some(peer("X")), b"abc123".to_vec());
    assert_eq!(
        actions,
        vec![Action::SendRequest {
            peer: peer("X"),
            request: FileRequest { file_id: "abc123".to_string() },
        }]
    );
    assert!(engine.is_member(&peer("X")));
}

#[test]
fn announcement_without_a_source_sends_nothing() {
    let mut engine = Engine::new();
    let actions = engine.handle(gossip(FILE_TOPIC, None, b"abc123"));
    assert_eq!(
        actions,
        vec![Action::Report(Notice::UnusableAnnouncement {
            source: None,
            data: b"abc123".to_vec(),
        })]
    );
    assert!(engine.membership().is_empty());
}

#[test]
fn announcement_that_is_not_text_sends_nothing() {
    let mut engine = Engine::new();
    let actions = engine.handle(gossip(FILE_TOPIC, Some("X"), &[0xff, 0xfe]));
    assert_eq!(
        actions,
        vec![Action::Report(Notice::UnusableAnnouncement {
            source: Some(peer("X")),
            data: vec![0xff, 0xfe],
        })]
    );
}

#[test]
fn chat_text_is_reported_and_nothing_is_sent() {
    let mut engine = Engine::new();
    let actions = engine.handle(gossip(CHAT_TOPIC, Some("X"), b"hello"));
    assert_eq!(
        actions,
        vec![Action::Report(Notice::Chat { source: Some(peer("X")), text: b"hello".to_vec() })]
    );
    assert!(engine.is_member(&peer("X")));
}

#[test]
fn peer_discovery_is_reported_and_the_peer_observed() {
    let mut engine = Engine::new();
    let actions = engine.handle(gossip(PEER_DISCOVERY_TOPIC, Some("X"), b""));
    assert_eq!(actions, vec![Action::Report(Notice::PeerDiscovery { source: Some(peer("X")) })]);
    assert_eq!(members(&engine), vec![peer("X")]);
}

#[test]
fn message_on_an_unknown_topic_is_reported_and_changes_nothing() {
    let mut engine = Engine::new();
    let actions = engine.handle(gossip("somewhere-else", Some("X"), b"abc123"));
    assert_eq!(
        actions,
        vec![Action::Report(Notice::UnexpectedTopic { topic: "somewhere-else".to_string() })]
    );
    assert!(engine.membership().is_empty());
}

#[test]
fn unsupported_request_gets_one_error_and_the_engine_goes_on() {
    let mut engine = Engine::new();
    let requests = vec![
        Request::Git(GitRequest::Clone("repo".to_string())),
        Request::Git(GitRequest::Fetch("origin".to_string(), None)),
        Request::Git(GitRequest::Push("origin".to_string(), vec!["main".to_string()])),
        Request::Git(GitRequest::LsRemote("origin".to_string())),
        Request::Git(GitRequest::Status("repo".to_string())),
    ];
    for request in requests {
        let actions = engine.handle(Event::RequestReceived { peer: peer("X"), request });
        assert_eq!(
            actions,
            vec![Action::SendResponse {
                peer: peer("X"),
                response: Response::Git(GitResponse::Error(UNSUPPORTED_REQUEST.to_string())),
            }]
        );
        match &actions[0] {
            Action::SendResponse { response, .. } => assert!(response.is_error()),
            other => panic!("unexpected action {:?}", other),
        }
    }
    // The engine still serves what comes after.
    let actions = engine.handle(gossip(FILE_TOPIC, Some("Y"), b"next"));
    assert_eq!(
        actions,
        vec![Action::SendRequest {
            peer: peer("Y"),
            request: FileRequest { file_id: "next".to_string() },
        }]
    );
}

#[test]
fn file_request_gets_one_refusal_on_the_file_exchange() {
    let mut engine = Engine::new();
    let request = Request::File(FileRequest { file_id: "abc123".to_string() });
    let actions = engine.handle(Event::RequestReceived { peer: peer("X"), request });
    assert_eq!(
        actions,
        vec![Action::SendResponse {
            peer: peer("X"),
            response: Response::File(FileResponse { file_body: vec![] }),
        }]
    );
    match &actions[0] {
        Action::SendResponse { response: Response::File(refusal), .. } => {
            assert!(Response::File(refusal.clone()).is_error());
            // The asking peer reads the refusal as a failure.
            assert_eq!(
                decode_file_response(encode_file_response(refusal)),
                Err(FrameError::UnexpectedEof)
            );
        }
        other => panic!("unexpected action {:?}", other),
    }
}

#[test]
fn a_response_with_content_is_no_refusal() {
    assert!(!Response::File(FileResponse { file_body: vec![1] }).is_error());
    assert!(!Response::Git(GitResponse::Data(vec![])).is_error());
    assert!(Response::Git(GitResponse::Error(String::new())).is_error());
}

#[test]
fn response_is_recorded_with_its_size_and_origin() {
    let mut engine = Engine::new();
    let actions = engine.handle(Event::ResponseReceived {
        peer: peer("X"),
        response: FileResponse { file_body: vec![0; 1234] },
    });
    assert_eq!(
        actions,
        vec![Action::Report(Notice::ResponseReceived { peer: peer("X"), size: 1234 })]
    );
}

#[test]
fn closed_connection_removes_the_peer() {
    let mut engine = Engine::new();
    engine.handle(Event::ConnectionEstablished { peer: peer("Y") });
    engine.handle(Event::ConnectionEstablished { peer: peer("Z") });
    assert!(engine.is_member(&peer("Y")));

    let actions = engine.handle(Event::ConnectionClosed { peer: peer("Y") });
    assert_eq!(actions, vec![Action::RemovePeer { peer: peer("Y") }]);
    assert!(!engine.is_member(&peer("Y")));
    assert!(engine.is_member(&peer("Z")));
}

#[test]
fn identify_timeout_removes_the_peer() {
    let mut engine = Engine::new();
    engine.handle(Event::ConnectionEstablished { peer: peer("Y") });
    let actions = engine.handle(Event::IdentifyTimeout { peer: peer("Y") });
    assert_eq!(actions, vec![Action::RemovePeer { peer: peer("Y") }]);
    assert!(!engine.is_member(&peer("Y")));
}

#[test]
fn closed_then_timed_out_leaves_the_peer_absent_without_error() {
    let mut engine = Engine::new();
    engine.handle(Event::ConnectionEstablished { peer: peer("Y") });
    engine.handle(Event::ConnectionEstablished { peer: peer("Z") });

    let first = engine.handle(Event::ConnectionClosed { peer: peer("Y") });
    let second = engine.handle(Event::IdentifyTimeout { peer: peer("Y") });
    assert_eq!(first, vec![Action::RemovePeer { peer: peer("Y") }]);
    assert_eq!(second, vec![Action::RemovePeer { peer: peer("Y") }]);
    assert!(!engine.is_member(&peer("Y")));
    assert_eq!(members(&engine), vec![peer("Z")]);
}

#[test]
fn losing_a_peer_that_was_never_known_changes_nothing() {
    let mut engine = Engine::new();
    engine.handle(Event::ConnectionEstablished { peer: peer("Z") });
    let actions = engine.on_peer_lost(peer("Y"));
    assert_eq!(actions, vec![Action::RemovePeer { peer: peer("Y") }]);
    assert_eq!(members(&engine), vec![peer("Z")]);
}

#[test]
fn observed_address_is_advertised_and_membership_untouched() {
    let mut engine = Engine::new();
    engine.handle(Event::ConnectionEstablished { peer: peer("Z") });
    let actions = engine.handle(Event::AddressObserved { address: vec![4, 127, 0, 0, 1] });
    assert_eq!(actions, vec![Action::AddExternalAddress { address: vec![4, 127, 0, 0, 1] }]);
    assert_eq!(members(&engine), vec![peer("Z")]);
}

#[test]
fn tick_rearms_the_timer_first_and_refreshes_once() {
    let mut engine = Engine::new();
    for _ in 0..5 {
        let actions = engine.handle(Event::Tick);
        assert_eq!(actions, vec![Action::RearmTimer { seconds: 15 }, Action::Bootstrap]);
        let refreshes = actions.iter().filter(|a| **a == Action::Bootstrap).count();
        assert_eq!(refreshes, 1);
    }
}

#[test]
fn tick_uses_the_interval_of_the_engine() {
    let mut engine = Engine::with_interval(3);
    assert_eq!(
        engine.handle(Event::Tick),
        vec![Action::RearmTimer { seconds: 3 }, Action::Bootstrap]
    );
    assert_eq!(engine.on_tick(), vec![Action::RearmTimer { seconds: 3 }, Action::Bootstrap]);
}

#[test]
fn ticks_stay_evenly_spaced_when_handling_takes_time() {
    // The caller sets the timer when it performs the first action of a tick,
    // before the refresh: the time the refresh takes does not move the next
    // tick.
    let mut engine = Engine::new();
    let mut now: u64 = 0;
    let mut deadline: u64 = 15;
    let mut fired = Vec::new();
    let mut refreshes = 0;
    for _ in 0..4 {
        now = deadline;
        fired.push(now);
        for action in engine.handle(Event::Tick) {
            match action {
                Action::RearmTimer { seconds } => deadline = now + seconds,
                Action::Bootstrap => {
                    refreshes += 1;
                    now += 4;
                }
                other => panic!("unexpected action {:?}", other),
            }
        }
    }
    assert_eq!(fired, vec![15, 30, 45, 60]);
    assert_eq!(refreshes, 4);
}

#[test]
fn failed_refresh_is_reported_and_never_escalated() {
    let mut engine = Engine::new();
    let actions = engine.handle(Event::RefreshFailed);
    assert_eq!(actions, vec![Action::Report(Notice::RefreshFailed)]);
    assert_eq!(
        engine.handle(Event::Tick),
        vec![Action::RearmTimer { seconds: 15 }, Action::Bootstrap]
    );
}

#[test]
fn events_are_handled_in_the_order_given() {
    let mut engine = Engine::new();
    engine.handle(Event::ConnectionEstablished { peer: peer("X") });
    engine.handle(Event::ConnectionClosed { peer: peer("X") });
    assert!(!engine.is_member(&peer("X")));
    engine.handle(Event::ConnectionClosed { peer: peer("X") });
    engine.handle(Event::ConnectionEstablished { peer: peer("X") });
    assert!(engine.is_member(&peer("X")));
}
