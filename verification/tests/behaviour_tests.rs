use asn_net::{
    bootstrapped_behaviour, protocol_version, rendezvous_namespace, seed_key_bytes,
    topic_capabilities, topic_everyone, BehaviourState, NetConfig,
};

#[test]
fn protocol_strings() {
    assert_eq!(protocol_version(), "/asn/1.0.0");
    assert_eq!(rendezvous_namespace(), "binary-souls");
    assert_eq!(topic_everyone(), "everyone");
    assert_eq!(topic_capabilities(), "capabilities");
}

#[test]
fn standard_config_values() {
    let c = NetConfig::standard();
    assert_eq!(c.provider_republish_secs, 60);
    assert_eq!(c.ping_interval_secs, 5);
    assert_eq!(c.ping_timeout_secs, 5);
    assert_eq!(c.gossip_heartbeat_secs, 10);
    assert_eq!(c.gossip_history_length, 10);
    assert_eq!(c.gossip_history_gossip, 10);
    assert_eq!(c.mesh_n_low, 4);
    assert_eq!(c.mesh_n, 6);
    assert_eq!(c.mesh_n_high, 8);
    assert_eq!(c.max_transmit_bytes, 10 * 1024 * 1024);
    assert!(c.permissive_validation);
    assert!(c.allow_self_origin);
    assert!(!c.only_global_ips);
    assert_eq!(c.idle_connection_timeout_secs, 60);
    assert_eq!(c.discover_interval_secs, 30);
}

#[test]
fn bootstrap_subscribes_exactly_bootstrap_and_additional_topics() {
    let b = bootstrapped_behaviour(&vec!["alerts".to_string()]);
    assert!(b.is_subscribed(&"everyone".to_string()));
    assert!(b.is_subscribed(&"capabilities".to_string()));
    assert!(b.is_subscribed(&"alerts".to_string()));
    assert!(!b.is_subscribed(&"news".to_string()));
    assert_eq!(b.topic_count(), 3);
}

#[test]
fn bootstrap_without_additional_topics() {
    let b = bootstrapped_behaviour(&vec![]);
    assert!(b.is_subscribed(&"everyone".to_string()));
    assert!(b.is_subscribed(&"capabilities".to_string()));
    assert_eq!(b.topic_count(), 2);
}

#[test]
fn subscribe_is_idempotent() {
    let mut b = BehaviourState::new();
    assert!(b.subscribe(&"alerts".to_string()));
    assert!(!b.subscribe(&"alerts".to_string()));
    assert_eq!(b.topic_count(), 1);
}

#[test]
fn bootstrap_keeps_existing_topics_once() {
    let mut b = BehaviourState::new();
    b.subscribe(&"everyone".to_string());
    b.bootstrap();
    assert_eq!(b.topic_count(), 2);
    assert!(b.is_subscribed(&"everyone".to_string()));
    assert!(b.is_subscribed(&"capabilities".to_string()));
}

#[test]
fn shutdown_drops_bootstrap_topics_and_server_mode() {
    let mut b = bootstrapped_behaviour(&vec!["alerts".to_string()]);
    b.shutdown();
    assert!(!b.is_subscribed(&"everyone".to_string()));
    assert!(!b.is_subscribed(&"capabilities".to_string()));
    assert!(b.is_subscribed(&"alerts".to_string()));
    assert_eq!(b.topic_count(), 1);
}

#[test]
fn seed_expands_to_padded_key() {
    let bytes = seed_key_bytes(42);
    assert_eq!(bytes.len(), 32);
    assert_eq!(bytes[0], 42);
    for i in 1..32 {
        assert_eq!(bytes[i], 0);
    }
}
