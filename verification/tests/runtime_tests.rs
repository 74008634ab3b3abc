use asn_net::{
    count_active_models, dial_targets, ensure_running, start_transition, stop_transition,
    Address, ModelId, ModelRegistry, ModelState, ModelStats, RuntimeError, RuntimeMetrics,
    RuntimeState, TransactionState,
};

#[test]
fn start_only_from_stopped() {
    assert_eq!(start_transition(RuntimeState::Stopped), Ok(RuntimeState::Running));
    assert_eq!(
        start_transition(RuntimeState::Running),
        Err(RuntimeError::System("Runtime already running".to_string()))
    );
    assert_eq!(
        start_transition(RuntimeState::Starting),
        Err(RuntimeError::System("Runtime already running".to_string()))
    );
}

#[test]
fn stop_only_from_running() {
    assert_eq!(stop_transition(RuntimeState::Running), Ok(RuntimeState::Stopped));
    assert_eq!(
        stop_transition(RuntimeState::Stopped),
        Err(RuntimeError::System("Runtime not running".to_string()))
    );
}

#[test]
fn operations_guarded_by_running_state() {
    assert_eq!(ensure_running(RuntimeState::Running), Ok(()));
    assert_eq!(
        ensure_running(RuntimeState::Stopping),
        Err(RuntimeError::System("Runtime not running".to_string()))
    );
}

#[test]
fn counting_ready_models() {
    assert_eq!(count_active_models(&vec![]), 0);
    let states = vec![
        ModelState::Ready,
        ModelState::Registered,
        ModelState::Ready,
        ModelState::Loading,
        ModelState::Failed { error: "out of memory".to_string() },
    ];
    assert_eq!(count_active_models(&states), 2);
}

#[test]
fn registry_add_and_lookup() {
    let mut r = ModelRegistry::new();
    assert_eq!(r.len(), 0);
    assert!(r.add_model(ModelId("bert".to_string())).is_ok());
    assert!(r.add_model(ModelId("gpt".to_string())).is_ok());
    assert_eq!(r.len(), 2);
    assert!(r.contains(&ModelId("bert".to_string())));
    assert!(!r.contains(&ModelId("t5".to_string())));

    // registering the same name again succeeds and keeps one entry for it,
    // reset to the registered state
    assert!(r.add_model(ModelId("bert".to_string())).is_ok());
    assert_eq!(r.len(), 2);
    assert!(r.contains(&ModelId("bert".to_string())));

    assert_eq!(
        r.get_model_stats(&ModelId("gpt".to_string())),
        Ok(ModelStats {
            memory_usage: std::mem::size_of::<ModelState>(),
            inference_count: 0,
        })
    );
    assert!(matches!(
        r.get_model_stats(&ModelId("t5".to_string())),
        Err(RuntimeError::Model(_))
    ));

    let states = r.model_states();
    assert_eq!(states, vec![ModelState::Registered, ModelState::Registered]);
    assert_eq!(count_active_models(&states), 0);
}

#[test]
fn error_components() {
    assert_eq!(RuntimeError::Model("x".to_string()).describe(), "model error");
    assert_eq!(RuntimeError::Blockchain("x".to_string()).describe(), "blockchain error");
    assert_eq!(RuntimeError::Data("x".to_string()).describe(), "data error");
    assert_eq!(RuntimeError::System("x".to_string()).describe(), "system error");
}

#[test]
fn transaction_state_descriptions() {
    assert_eq!(TransactionState::Pending.describe(), "Pending");
    assert_eq!(TransactionState::Submitted.describe(), "Submitted");
    assert_eq!(TransactionState::Confirmed(518).describe(), "Confirmed");
    assert_eq!(TransactionState::Failed("reverted".to_string()).describe(), "Failed");
    assert_eq!(TransactionState::Unknown.describe(), "Unknown");
}

#[test]
fn metrics_snapshot_carries_plain_values() {
    let m = RuntimeMetrics {
        state: RuntimeState::Running,
        active_models: 2,
        memory_usage: 4096,
        uptime_ms: 1500,
    };
    assert_eq!(m.state, RuntimeState::Running);
    assert_eq!(m.active_models, 2);
}

#[test]
fn dial_targets_require_peer_suffix() {
    let with_peer = Address { base: "/ip4/1.1.1.1/tcp/1".to_string(), peer: Some(11) };
    let with_other = Address { base: "/ip4/2.2.2.2/tcp/2".to_string(), peer: Some(22) };
    let targets = dial_targets(&vec![with_peer.clone(), with_other.clone()]).unwrap();
    assert_eq!(targets, vec![(11, with_peer.clone()), (22, with_other)]);

    let bare = Address { base: "/ip4/3.3.3.3/tcp/3".to_string(), peer: None };
    assert!(dial_targets(&vec![with_peer, bare]).is_none());
}
