use asn_net::{
    deserialize_message, serialize_message, Action, Address, Command, Event, EventLoop,
    LLMRequest, LLMResponse, NetError, NetworkEvent, Outcome, WireMessage,
};

fn addr(base: &str) -> Address {
    Address { base: base.to_string(), peer: None }
}

fn fresh_loop() -> EventLoop {
    EventLoop::new(None, None, None)
}

#[test]
fn listen_ok_and_bind_error() {
    let mut l = fresh_loop();
    let acts = l.handle_command(Command::StartListening { addr: addr("/ip4/0.0.0.0/tcp/0"), ticket: 1 });
    assert_eq!(acts.len(), 1);
    assert!(matches!(acts[0], Action::StartListen { ticket: 1, .. }));

    let acts = l.handle_outcome(Outcome::ListenResult { ticket: 1, ok: true, error: String::new() });
    assert_eq!(acts, vec![Action::ReplyOk { ticket: 1 }]);

    let acts = l.handle_command(Command::StartListening { addr: addr("/ip4/1.2.3.4/tcp/1"), ticket: 2 });
    assert!(matches!(acts[0], Action::StartListen { ticket: 2, .. }));
    let acts = l.handle_outcome(Outcome::ListenResult {
        ticket: 2,
        ok: false,
        error: "address in use".to_string(),
    });
    assert_eq!(
        acts,
        vec![Action::ReplyError {
            ticket: 2,
            error: NetError::BindFailure("address in use".to_string()),
        }]
    );
}

#[test]
fn dial_suffixes_address_and_registers() {
    let mut l = fresh_loop();
    let acts = l.handle_command(Command::Dial {
        peer_id: 7,
        peer_addr: addr("/ip4/10.0.0.1/tcp/4001"),
        ticket: 3,
    });
    assert_eq!(acts.len(), 2);
    assert_eq!(
        acts[0],
        Action::AddKadAddress { peer: 7, addr: addr("/ip4/10.0.0.1/tcp/4001") }
    );
    assert_eq!(
        acts[1],
        Action::DialPeer {
            peer: 7,
            addr: Address { base: "/ip4/10.0.0.1/tcp/4001".to_string(), peer: Some(7) },
            ticket: 3,
        }
    );
    let acts = l.handle_outcome(Outcome::DialStarted { peer: 7, ticket: 3, ok: true, error: String::new() });
    assert!(acts.is_empty());
    // connection comes up as dialer: the dial's reply sink completes
    let acts = l.handle_event(NetworkEvent::ConnectionEstablished { peer: 7, dialer: true });
    assert_eq!(acts, vec![Action::ReplyOk { ticket: 3 }]);
}

#[test]
fn second_concurrent_dial_to_same_peer_is_rejected() {
    let mut l = fresh_loop();
    let _ = l.handle_command(Command::Dial { peer_id: 7, peer_addr: addr("/a"), ticket: 3 });
    let _ = l.handle_outcome(Outcome::DialStarted { peer: 7, ticket: 3, ok: true, error: String::new() });
    let acts = l.handle_command(Command::Dial { peer_id: 7, peer_addr: addr("/b"), ticket: 4 });
    assert_eq!(
        acts,
        vec![Action::ReplyError { ticket: 4, error: NetError::DuplicateDial }]
    );
    // the first dial is still pending and completes normally
    let acts = l.handle_event(NetworkEvent::ConnectionEstablished { peer: 7, dialer: true });
    assert_eq!(acts, vec![Action::ReplyOk { ticket: 3 }]);
}

#[test]
fn dial_failure_is_surfaced() {
    let mut l = fresh_loop();
    let _ = l.handle_command(Command::Dial { peer_id: 9, peer_addr: addr("/x"), ticket: 5 });
    let _ = l.handle_outcome(Outcome::DialStarted { peer: 9, ticket: 5, ok: true, error: String::new() });
    let acts = l.handle_event(NetworkEvent::OutgoingConnectionError {
        peer: Some(9),
        error: "connection refused".to_string(),
    });
    assert_eq!(
        acts,
        vec![Action::ReplyError {
            ticket: 5,
            error: NetError::DialFailure("connection refused".to_string()),
        }]
    );
    // the entry is consumed: a later error for the same peer is ignored
    let acts = l.handle_event(NetworkEvent::OutgoingConnectionError {
        peer: Some(9),
        error: "connection refused".to_string(),
    });
    assert!(acts.is_empty());
}

#[test]
fn provide_and_fetch_round_trip() {
    // node A provides "weather"; node B fetches it
    let mut a = fresh_loop();
    let mut b = fresh_loop();

    // A: StartProviding("weather")
    let acts = a.handle_command(Command::StartProviding {
        agent_name: "weather".to_string(),
        ticket: 10,
    });
    assert_eq!(
        acts,
        vec![Action::KadStartProviding { key: b"weather".to_vec(), ticket: 10 }]
    );
    let acts = a.handle_outcome(Outcome::ProvideStarted { ticket: 10, query: Some(100) });
    assert!(acts.is_empty());
    let acts = a.handle_event(NetworkEvent::StartProvidingProgressed { query: 100 });
    assert_eq!(acts, vec![Action::ReplyOk { ticket: 10 }]);

    // B: GetProviders("weather") finds A (peer 1)
    let acts = b.handle_command(Command::GetProviders {
        agent_name: "weather".to_string(),
        ticket: 20,
    });
    assert_eq!(
        acts,
        vec![Action::KadGetProviders { key: b"weather".to_vec(), ticket: 20 }]
    );
    let _ = b.handle_outcome(Outcome::ProvidersQueryStarted { ticket: 20, query: 200 });
    let acts = b.handle_event(NetworkEvent::ProvidersFound { query: 200, providers: vec![1] });
    assert_eq!(
        acts,
        vec![
            Action::ReplyProviders { ticket: 20, providers: vec![1] },
            Action::FinishQuery { query: 200 },
        ]
    );

    // B: RequestAgent(A, "weather", "London?")
    let acts = b.handle_command(Command::RequestAgent {
        agent_name: "weather".to_string(),
        message: "London?".to_string(),
        peer: 1,
        ticket: 21,
    });
    assert_eq!(
        acts,
        vec![Action::SendRequest {
            peer: 1,
            request: LLMRequest("weather".to_string(), "London?".to_string()),
            ticket: 21,
        }]
    );
    let _ = b.handle_outcome(Outcome::RequestSent { ticket: 21, request: 300 });

    // the request crosses the wire
    let wire = serialize_message(&WireMessage::Request {
        agent_name: b"weather".to_vec(),
        message: b"London?".to_vec(),
    })
    .unwrap();
    let delivered = deserialize_message(&wire).unwrap();
    let (name, message) = match delivered {
        WireMessage::Request { agent_name, message } => (agent_name, message),
        _ => panic!("request expected"),
    };

    // A forwards the inbound request to its application
    let acts = a.handle_event(NetworkEvent::InboundRequest {
        agent_name: String::from_utf8(name).unwrap(),
        message: String::from_utf8(message).unwrap(),
        channel: 400,
    });
    assert_eq!(
        acts,
        vec![Action::EmitEvent {
            event: Event::InboundRequest {
                agent_name: "weather".to_string(),
                message: "London?".to_string(),
                channel: 400,
            },
        }]
    );

    // A's application answers with RespondLLM([0x48, 0x69])
    let acts = a.handle_command(Command::RespondLLM { llm_output: vec![0x48, 0x69], channel: 400 });
    assert_eq!(
        acts,
        vec![Action::SendResponse { channel: 400, response: LLMResponse(vec![0x48, 0x69]) }]
    );

    // the response crosses the wire
    let wire = serialize_message(&WireMessage::Response { body: vec![0x48, 0x69] }).unwrap();
    let body = match deserialize_message(&wire).unwrap() {
        WireMessage::Response { body } => body,
        _ => panic!("response expected"),
    };

    // B's pending request completes with exactly those bytes
    let acts = b.handle_event(NetworkEvent::InboundResponse { request: 300, body });
    assert_eq!(acts, vec![Action::ReplyBytes { ticket: 21, body: vec![0x48, 0x69] }]);
}

#[test]
fn no_providers_reports_empty_set_not_error() {
    let mut l = fresh_loop();
    let _ = l.handle_command(Command::GetProviders { agent_name: "nobody".to_string(), ticket: 30 });
    let _ = l.handle_outcome(Outcome::ProvidersQueryStarted { ticket: 30, query: 500 });
    let acts = l.handle_event(NetworkEvent::ProvidersFinished { query: 500 });
    assert_eq!(acts, vec![Action::ReplyProviders { ticket: 30, providers: vec![] }]);
}

#[test]
fn provider_store_rejection_is_surfaced() {
    let mut l = fresh_loop();
    let _ = l.handle_command(Command::StartProviding { agent_name: "x".to_string(), ticket: 31 });
    let acts = l.handle_outcome(Outcome::ProvideStarted { ticket: 31, query: None });
    assert_eq!(
        acts,
        vec![Action::ReplyError { ticket: 31, error: NetError::ProviderStoreFull }]
    );
}

#[test]
fn request_timeout_is_surfaced_as_transport_error() {
    // an inbound request whose handler never answers leaves the requester
    // pending until its own outbound timeout fires as a failure event
    let mut l = fresh_loop();
    let _ = l.handle_command(Command::RequestAgent {
        agent_name: "a".to_string(),
        message: "m".to_string(),
        peer: 2,
        ticket: 40,
    });
    let _ = l.handle_outcome(Outcome::RequestSent { ticket: 40, request: 600 });
    // unrelated events do not touch the pending request
    let acts = l.handle_event(NetworkEvent::InboundRequest {
        agent_name: "a".to_string(),
        message: "other".to_string(),
        channel: 9,
    });
    assert_eq!(acts.len(), 1);
    let acts = l.handle_event(NetworkEvent::OutboundFailure {
        request: 600,
        error: "timeout".to_string(),
    });
    assert_eq!(
        acts,
        vec![Action::ReplyError {
            ticket: 40,
            error: NetError::RequestTransport("timeout".to_string()),
        }]
    );
}

#[test]
fn unknown_terminal_ids_are_tolerated() {
    let mut l = fresh_loop();
    assert!(l.handle_event(NetworkEvent::StartProvidingProgressed { query: 1 }).is_empty());
    assert!(l
        .handle_event(NetworkEvent::ProvidersFound { query: 2, providers: vec![1, 2] })
        .is_empty());
    assert!(l.handle_event(NetworkEvent::ProvidersFinished { query: 3 }).is_empty());
    assert!(l
        .handle_event(NetworkEvent::InboundResponse { request: 4, body: vec![] })
        .is_empty());
    assert!(l
        .handle_event(NetworkEvent::OutboundFailure { request: 5, error: "e".to_string() })
        .is_empty());
    assert!(l
        .handle_event(NetworkEvent::OutgoingConnectionError { peer: Some(6), error: "e".to_string() })
        .is_empty());
    assert!(l
        .handle_event(NetworkEvent::OutgoingConnectionError { peer: None, error: "e".to_string() })
        .is_empty());
}

#[test]
fn cancellation_abandons_pending_replies() {
    let mut l = fresh_loop();
    let _ = l.handle_command(Command::RequestAgent {
        agent_name: "a".to_string(),
        message: "m".to_string(),
        peer: 2,
        ticket: 50,
    });
    let _ = l.handle_outcome(Outcome::RequestSent { ticket: 50, request: 700 });
    let _ = l.handle_command(Command::GetProviders { agent_name: "g".to_string(), ticket: 51 });
    let _ = l.handle_outcome(Outcome::ProvidersQueryStarted { ticket: 51, query: 701 });

    let acts = l.shutdown();
    assert_eq!(acts.len(), 2);
    assert!(acts.contains(&Action::AbandonTicket { ticket: 50 }));
    assert!(acts.contains(&Action::AbandonTicket { ticket: 51 }));

    // after shutdown nothing is pending any more
    let acts = l.handle_event(NetworkEvent::InboundResponse { request: 700, body: vec![1] });
    assert!(acts.is_empty());
}

#[test]
fn bootstrap_command_round_trip() {
    let mut l = fresh_loop();
    let acts = l.handle_command(Command::Bootstrap { ticket: 60 });
    assert_eq!(acts, vec![Action::RunBootstrap { ticket: 60 }]);
    let acts = l.handle_outcome(Outcome::BootstrapDone { ticket: 60 });
    assert_eq!(acts, vec![Action::ReplyOk { ticket: 60 }]);
}

#[test]
fn gossip_command_publishes_utf8_payload() {
    let mut l = fresh_loop();
    let acts = l.handle_command(Command::GossipMessage {
        topic: "news".to_string(),
        message: "hello".to_string(),
    });
    assert_eq!(
        acts,
        vec![Action::PublishGossip { topic: "news".to_string(), data: b"hello".to_vec() }]
    );
}

#[test]
fn startup_and_tick_follow_rendezvous_configuration() {
    // no rendezvous peer: nothing to do at startup or on a tick
    let l = EventLoop::new(None, None, None);
    assert!(l.startup_actions().is_empty());
    assert!(l.tick().is_empty());

    // configured node: record external address, dial and register, discover
    let mut l = EventLoop::new(
        Some(8),
        Some(addr("/ip4/9.9.9.9/tcp/62649")),
        Some(addr("/ip4/5.5.5.5/tcp/4001")),
    );
    assert_eq!(
        l.startup_actions(),
        vec![
            Action::AddExternalAddress { addr: addr("/ip4/5.5.5.5/tcp/4001") },
            Action::DialAddress { addr: addr("/ip4/9.9.9.9/tcp/62649") },
            Action::RegisterRendezvous { peer: 8 },
        ]
    );
    assert_eq!(
        l.tick(),
        vec![Action::DiscoverRendezvous { peer: 8, cookie: None }]
    );

    // a discovery response replaces the cookie and dials each registration
    // with the peer suffix appended
    let acts = l.handle_event(NetworkEvent::RendezvousDiscovered {
        cookie: 77,
        registrations: vec![(3, addr("/ip4/7.7.7.7/tcp/1")), (4, addr("/ip4/7.7.7.8/tcp/2"))],
    });
    assert_eq!(
        acts,
        vec![
            Action::DialAddress {
                addr: Address { base: "/ip4/7.7.7.7/tcp/1".to_string(), peer: Some(3) },
            },
            Action::DialAddress {
                addr: Address { base: "/ip4/7.7.7.8/tcp/2".to_string(), peer: Some(4) },
            },
        ]
    );
    assert_eq!(
        l.tick(),
        vec![Action::DiscoverRendezvous { peer: 8, cookie: Some(77) }]
    );

    // a connection to the rendezvous peer triggers a registration attempt
    let acts = l.handle_event(NetworkEvent::ConnectionEstablished { peer: 8, dialer: true });
    assert_eq!(acts, vec![Action::RegisterRendezvous { peer: 8 }]);
    // a connection to any other peer does not
    let acts = l.handle_event(NetworkEvent::ConnectionEstablished { peer: 9, dialer: false });
    assert!(acts.is_empty());
}

#[test]
fn identify_records_observed_address() {
    let mut l = fresh_loop();
    let acts = l.handle_event(NetworkEvent::IdentifyReceived {
        observed: addr("/ip4/88.77.66.55/tcp/4001"),
    });
    assert_eq!(
        acts,
        vec![Action::AddExternalAddress { addr: addr("/ip4/88.77.66.55/tcp/4001") }]
    );
}

#[test]
fn mdns_maintains_explicit_peers() {
    let mut l = fresh_loop();
    let acts = l.handle_event(NetworkEvent::MdnsDiscovered { peers: vec![1, 2, 3] });
    assert_eq!(
        acts,
        vec![
            Action::AddExplicitPeer { peer: 1 },
            Action::AddExplicitPeer { peer: 2 },
            Action::AddExplicitPeer { peer: 3 },
        ]
    );
    let acts = l.handle_event(NetworkEvent::MdnsExpired { peers: vec![2] });
    assert_eq!(acts, vec![Action::RemoveExplicitPeer { peer: 2 }]);
}
