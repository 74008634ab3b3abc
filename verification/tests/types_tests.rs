use asn_net::{Address, LLMRequest, LLMResponse, NetError, TaskType};

#[test]
fn with_peer_appends_suffix_once() {
    let bare = Address { base: "/ip4/1.2.3.4/tcp/4001".to_string(), peer: None };
    let suffixed = bare.with_peer(12);
    assert_eq!(suffixed.base, bare.base);
    assert_eq!(suffixed.peer, Some(12));
    assert_eq!(suffixed.peer_id(), Some(12));
    // already carrying the identity: unchanged
    assert_eq!(suffixed.with_peer(12), suffixed);
}

#[test]
fn wire_types_hold_their_fields() {
    let req = LLMRequest("weather".to_string(), "London?".to_string());
    assert_eq!(req.0, "weather");
    assert_eq!(req.1, "London?");
    let resp = LLMResponse(vec![0x48, 0x69]);
    assert_eq!(resp.0, vec![0x48, 0x69]);
}

#[test]
fn error_kinds_describe_themselves() {
    assert_eq!(NetError::BindFailure("e".to_string()).describe(), "bind failure");
    assert_eq!(NetError::DialFailure("e".to_string()).describe(), "dial failure");
    assert_eq!(
        NetError::RequestTransport("e".to_string()).describe(),
        "request transport failure"
    );
    assert_eq!(NetError::ProviderStoreFull.describe(), "provider store full");
    assert_eq!(NetError::DuplicateDial.describe(), "duplicate dial");
}

#[test]
fn task_types_are_distinct() {
    assert_ne!(TaskType::ImageGeneration, TaskType::DataProcessing);
    assert_ne!(TaskType::DataProcessing, TaskType::WebResearch);
}
