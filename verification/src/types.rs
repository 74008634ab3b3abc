//! Plain types crossing the core's boundaries.
//!
//! Commands travel from the client handle into the event loop; events travel
//! from the loop out to the application.  Reply sinks are represented by
//! opaque tickets: the process around the loop keeps the actual single-use
//! sinks keyed by ticket and completes the one a reply action names.  Peers,
//! queries, outbound requests and inbound response channels are likewise
//! carried as the opaque numeric tokens the surrounding process assigned to
//! them.

use vstd::prelude::*;

verus! {

/// An agent request on the wire: the agent's name and the message for it.
#[derive(Debug, Clone, PartialEq, Eq)]
pub struct LLMRequest(pub String, pub String);

/// An agent response on the wire: an opaque byte sequence.
#[derive(Debug, Clone, PartialEq, Eq)]
pub struct LLMResponse(pub Vec<u8>);

/// Categories of work a task proposal may ask for.
#[derive(Debug, Clone, Copy, PartialEq, Eq, Structural)]
pub enum TaskType {
    ImageGeneration,
    DataProcessing,
    WebResearch,
}

/// A listener address: an opaque transport stack plus an optional trailing
/// peer-identity component.
#[derive(Debug, PartialEq, Eq)]
pub struct Address {
    /// The transport layers (protocol, host, port), kept opaque.
    pub base: String,
    /// The peer identity the address is suffixed with, if any.
    pub peer: Option<u64>,
}

impl Clone for Address {
    fn clone(&self) -> (r: Self)
        ensures
            r == *self,
    {
        Address { base: self.base.clone(), peer: self.peer }
    }
}

impl Address {
    /// The same address, guaranteed to carry `peer` as its identity suffix.
    /// An address already suffixed with `peer` is returned unchanged.
    pub fn with_peer(&self, peer: u64) -> (r: Address)
        ensures
            r.base == self.base,
            r.peer == Some(peer),
    {
        Address { base: self.base.clone(), peer: Some(peer) }
    }

    /// The peer identity the address ends with, if any.
    pub fn peer_id(&self) -> (r: Option<u64>)
        ensures
            r == self.peer,
    {
        self.peer
    }
}

/// The error kinds a command can surface through its reply.
#[derive(Debug, Clone, PartialEq, Eq)]
pub enum NetError {
    /// A listener could not be set up on the requested address.
    BindFailure(String),
    /// An outgoing connection could not be established.
    DialFailure(String),
    /// An outbound request/response exchange failed in transport.
    RequestTransport(String),
    /// The DHT rejected a request to start providing.
    ProviderStoreFull,
    /// A dial to the same peer is already outstanding.
    DuplicateDial,
}

impl NetError {
    /// A short description of the error kind.
    pub fn describe(&self) -> (r: &'static str)
        ensures
            match self {
                NetError::BindFailure(_) => r@ == "bind failure"@,
                NetError::DialFailure(_) => r@ == "dial failure"@,
                NetError::RequestTransport(_) => r@ == "request transport failure"@,
                NetError::ProviderStoreFull => r@ == "provider store full"@,
                NetError::DuplicateDial => r@ == "duplicate dial"@,
            },
    {
        match self {
            NetError::BindFailure(_) => "bind failure",
            NetError::DialFailure(_) => "dial failure",
            NetError::RequestTransport(_) => "request transport failure",
            NetError::ProviderStoreFull => "provider store full",
            NetError::DuplicateDial => "duplicate dial",
        }
    }
}

/// A command crossing the handle-to-loop boundary.  Every variant whose
/// outcome is observable carries the ticket of its reply sink.
#[derive(Debug, Clone, PartialEq, Eq)]
pub enum Command {
    StartListening { addr: Address, ticket: u64 },
    Dial { peer_id: u64, peer_addr: Address, ticket: u64 },
    Bootstrap { ticket: u64 },
    StartProviding { agent_name: String, ticket: u64 },
    GetProviders { agent_name: String, ticket: u64 },
    RequestAgent { agent_name: String, message: String, peer: u64, ticket: u64 },
    RespondLLM { llm_output: Vec<u8>, channel: u64 },
    GossipMessage { topic: String, message: String },
}

/// An event crossing the loop-to-application boundary.
#[derive(Debug, Clone, PartialEq, Eq)]
pub enum Event {
    /// A remote peer asked the named agent a question; the application must
    /// eventually answer on the carried response channel.
    InboundRequest { agent_name: String, message: String, channel: u64 },
}

} // verus!
