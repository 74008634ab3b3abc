//! Verified core of a peer-to-peer overlay for discovering and invoking named
//! agents.
//!
//! The library holds the logic of the node: the wire codec for agent
//! request/response messages, the pending-id tables that match commands to
//! their asynchronous outcomes, the event-loop state machine that decides what
//! every command and protocol event does, the gossip message-id function, and
//! the configuration that the swarm is built with.  The surrounding process
//! (transports, the swarm itself, task scheduling) performs the actions this
//! library decides on and feeds the outcomes back in.

mod behaviour;
mod cli;
mod codec;
mod eventloop;
mod gossip;
mod model;
mod pending;
mod runtime;
mod types;

pub use behaviour::{
    bootstrapped_behaviour, protocol_version, rendezvous_namespace, seed_key_bytes,
    topic_capabilities, topic_everyone, BehaviourState, NetConfig,
};
pub use cli::{dial_targets, Cli, Commands};
pub use codec::{
    deserialize_message, serialize_message, ProtocolError, WireMessage, MAX_FIELD_LEN,
    REQUEST_TAG, RESPONSE_TAG,
};
pub use eventloop::{Action, EventLoop, NetworkEvent, Outcome};
pub use gossip::{decimal_digits, gossip_message_id, hash_payload};
pub use model::{ModelId, ModelRegistry, ModelState, ModelStats, TransactionState};
pub use pending::PendingTable;
pub use runtime::{
    count_active_models, ensure_running, start_transition, stop_transition, EventType,
    RuntimeConfig, RuntimeError, RuntimeMetrics, RuntimeState,
};
pub use types::{Address, Command, Event, LLMRequest, LLMResponse, NetError, TaskType};
