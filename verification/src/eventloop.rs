//! The event loop's decision core.
//!
//! One task owns the swarm and multiplexes four sources: cancellation, swarm
//! events, commands from the handle, and a periodic discovery tick.  What
//! that task must decide — how a command or protocol event changes the
//! pending tables and which replies, emissions and swarm instructions follow
//! — is held here as a state machine over plain values.  The surrounding
//! process performs each returned [`Action`], feeds synchronous call results
//! back as an [`Outcome`] and asynchronous protocol events as a
//! [`NetworkEvent`], and completes the reply sink a reply action names.
//!
//! Every step is specified by a relation over the loop's abstract view, so
//! that the matching discipline — each registered ticket is answered or
//! abandoned exactly once — is stated and proved, not assumed.

use crate::pending::PendingTable;
use crate::types::{Address, Command, Event, LLMRequest, LLMResponse, NetError};
use vstd::prelude::*;
use vstd::string::StrSliceExecFns;
use vstd::utf8::encode_utf8;

verus! {

/// An asynchronous protocol event, reduced to what the loop decides on.
/// Events that only produce log lines stay with the surrounding process.
#[derive(Debug, Clone, PartialEq, Eq)]
pub enum NetworkEvent {
    /// The DHT finished a start-providing query.
    StartProvidingProgressed { query: u64 },
    /// A provider lookup produced its first batch of providers.
    ProvidersFound { query: u64, providers: Vec<u64> },
    /// A provider lookup terminated without a further record.
    ProvidersFinished { query: u64 },
    /// A remote peer sent an agent request.
    InboundRequest { agent_name: String, message: String, channel: u64 },
    /// A remote peer answered an outbound agent request.
    InboundResponse { request: u64, body: Vec<u8> },
    /// An outbound agent request failed in transport.
    OutboundFailure { request: u64, error: String },
    /// A connection is up; `dialer` says whether this node opened it.
    ConnectionEstablished { peer: u64, dialer: bool },
    /// An outgoing connection attempt failed.
    OutgoingConnectionError { peer: Option<u64>, error: String },
    /// The identify exchange reported how this node is seen externally.
    IdentifyReceived { observed: Address },
    /// A rendezvous discovery answered with registrations and a new cookie.
    RendezvousDiscovered { cookie: u64, registrations: Vec<(u64, Address)> },
    /// Link-local discovery found peers.
    MdnsDiscovered { peers: Vec<u64> },
    /// Link-local discovery expired peers.
    MdnsExpired { peers: Vec<u64> },
}

/// The immediate result of a swarm call an earlier action asked for.
#[derive(Debug, Clone, PartialEq, Eq)]
pub enum Outcome {
    /// Result of setting up a listener.
    ListenResult { ticket: u64, ok: bool, error: String },
    /// Result of starting a dial; `ok` means the dial is now in flight.
    DialStarted { peer: u64, ticket: u64, ok: bool, error: String },
    /// The behaviour's bootstrap hook returned.
    BootstrapDone { ticket: u64 },
    /// Result of asking the DHT to start providing; `query` is the id of the
    /// accepted query, or nothing if the provider store rejected it.
    ProvideStarted { ticket: u64, query: Option<u64> },
    /// A provider lookup was issued under `query`.
    ProvidersQueryStarted { ticket: u64, query: u64 },
    /// An outbound agent request was sent under `request`.
    RequestSent { ticket: u64, request: u64 },
}

/// One thing the surrounding process must do on the loop's behalf.
#[derive(Debug, Clone, PartialEq, Eq)]
pub enum Action {
    /// Complete the reply sink `ticket` with success.
    ReplyOk { ticket: u64 },
    /// Complete the reply sink `ticket` with the error.
    ReplyError { ticket: u64, error: NetError },
    /// Complete the reply sink `ticket` with a provider set.
    ReplyProviders { ticket: u64, providers: Vec<u64> },
    /// Complete the reply sink `ticket` with response bytes.
    ReplyBytes { ticket: u64, body: Vec<u8> },
    /// Drop the reply sink `ticket` unanswered; its waiter sees a closed
    /// channel.
    AbandonTicket { ticket: u64 },
    /// Ask the swarm to listen on the address; answer with
    /// [`Outcome::ListenResult`].
    StartListen { addr: Address, ticket: u64 },
    /// Dial the peer at the suffixed address; answer with
    /// [`Outcome::DialStarted`].
    DialPeer { peer: u64, addr: Address, ticket: u64 },
    /// Dial an address without an attached command.
    DialAddress { addr: Address },
    /// Add the address to the DHT routing table.
    AddKadAddress { peer: u64, addr: Address },
    /// Run the behaviour's bootstrap hook; answer with
    /// [`Outcome::BootstrapDone`].
    RunBootstrap { ticket: u64 },
    /// Ask the DHT to start providing the key; answer with
    /// [`Outcome::ProvideStarted`].
    KadStartProviding { key: Vec<u8>, ticket: u64 },
    /// Issue a DHT provider lookup for the key; answer with
    /// [`Outcome::ProvidersQueryStarted`].
    KadGetProviders { key: Vec<u8>, ticket: u64 },
    /// Send an agent request to the peer; answer with
    /// [`Outcome::RequestSent`].
    SendRequest { peer: u64, request: LLMRequest, ticket: u64 },
    /// Send the response on the inbound response channel.
    SendResponse { channel: u64, response: LLMResponse },
    /// Publish the payload on the gossip topic.
    PublishGossip { topic: String, data: Vec<u8> },
    /// Finish the DHT query: only its first result is wanted.
    FinishQuery { query: u64 },
    /// Record the address as an external address of this node.
    AddExternalAddress { addr: Address },
    /// Register this node with the rendezvous peer in the namespace.
    RegisterRendezvous { peer: u64 },
    /// Fire a rendezvous discovery with the cookie.
    DiscoverRendezvous { peer: u64, cookie: Option<u64> },
    /// Treat the peer as an explicit gossip mesh neighbour.
    AddExplicitPeer { peer: u64 },
    /// Stop treating the peer as an explicit gossip mesh neighbour.
    RemoveExplicitPeer { peer: u64 },
    /// Forward the event on the outbound event stream.
    EmitEvent { event: Event },
}

/// The loop's abstract state: the four pending tables, the rendezvous
/// cookie, and the fixed rendezvous and address configuration.
#[verifier::ext_equal]
pub struct LoopView {
    /// Pending dials: dialed peer to reply ticket.
    pub dial: Map<u64, u64>,
    /// Pending start-providing queries: query id to reply ticket.
    pub providing: Map<u64, u64>,
    /// Pending provider lookups: query id to reply ticket.
    pub getting: Map<u64, u64>,
    /// Pending outbound agent requests: request id to reply ticket.
    pub requests: Map<u64, u64>,
    /// The continuation token of the last rendezvous discovery.
    pub cookie: Option<u64>,
    /// The designated rendezvous peer, if any.
    pub rendezvous_peer: Option<u64>,
    /// The rendezvous peer's address, if any.
    pub rendezvous_addr: Option<Address>,
    /// An external address configured at construction, if any.
    pub external_addr: Option<Address>,
}

/// The event loop's state.  The swarm itself, the channels and the reply
/// sinks stay with the surrounding process; the loop decides, the process
/// performs.
pub struct EventLoop {
    pending_dial: PendingTable,
    pending_start_providing: PendingTable,
    pending_get_providers: PendingTable,
    pending_request: PendingTable,
    cookie: Option<u64>,
    rendezvous_point: Option<u64>,
    rendezvous_point_address: Option<Address>,
    external_address: Option<Address>,
}

impl View for EventLoop {
    type V = LoopView;

    closed spec fn view(&self) -> LoopView {
        LoopView {
            dial: self.pending_dial@,
            providing: self.pending_start_providing@,
            getting: self.pending_get_providers@,
            requests: self.pending_request@,
            cookie: self.cookie,
            rendezvous_peer: self.rendezvous_point,
            rendezvous_addr: self.rendezvous_point_address,
            external_addr: self.external_address,
        }
    }
}

/// What every accepted command does: how the state changes and which actions
/// follow, case by case.
pub open spec fn command_step(
    pre: LoopView,
    cmd: Command,
    post: LoopView,
    acts: Seq<Action>,
) -> bool {
    match cmd {
        Command::StartListening { addr, ticket } => post =~= pre && acts =~= seq![
            Action::StartListen { addr, ticket },
        ],
        Command::Dial { peer_id, peer_addr, ticket } => {
            if pre.dial.dom().contains(peer_id) {
                post =~= pre && acts =~= seq![
                    Action::ReplyError { ticket, error: NetError::DuplicateDial },
                ]
            } else {
                post =~= pre && acts =~= seq![
                    Action::AddKadAddress {
                        peer: peer_id,
                        addr: Address { base: peer_addr.base, peer: peer_addr.peer },
                    },
                    Action::DialPeer {
                        peer: peer_id,
                        addr: Address { base: peer_addr.base, peer: Some(peer_id) },
                        ticket,
                    },
                ]
            }
        },
        Command::Bootstrap { ticket } => post =~= pre && acts =~= seq![
            Action::RunBootstrap { ticket },
        ],
        Command::StartProviding { agent_name, ticket } => post =~= pre && acts.len() == 1
            && (acts[0] matches Action::KadStartProviding { key, ticket: t } && t == ticket && key@
            == encode_utf8(agent_name@)),
        Command::GetProviders { agent_name, ticket } => post =~= pre && acts.len() == 1 && (
        acts[0] matches Action::KadGetProviders { key, ticket: t } && t == ticket && key@
            == encode_utf8(agent_name@)),
        Command::RequestAgent { agent_name, message, peer, ticket } => post =~= pre && acts =~= seq![
            Action::SendRequest { peer, request: LLMRequest(agent_name, message), ticket },
        ],
        Command::RespondLLM { llm_output, channel } => post =~= pre && acts =~= seq![
            Action::SendResponse { channel, response: LLMResponse(llm_output) },
        ],
        Command::GossipMessage { topic, message } => post =~= pre && acts.len() == 1 && (
        acts[0] matches Action::PublishGossip { topic: t, data } && t == topic && data@
            == encode_utf8(message@)),
    }
}

/// What every protocol event does: which pending entry it consumes, which
/// reply or emission follows, and that an unknown id is tolerated silently.
///
/// Two decisions are pinned down here.  A provider lookup that terminates
/// without producing a provider answers its command with the empty set, so
/// the reply sink is consumed rather than left to time out.  And a freshly
/// established connection triggers a rendezvous registration only when the
/// connected peer is the designated rendezvous peer, not on every dial.
pub open spec fn event_step(
    pre: LoopView,
    ev: NetworkEvent,
    post: LoopView,
    acts: Seq<Action>,
) -> bool {
    match ev {
        NetworkEvent::StartProvidingProgressed { query } => {
            if pre.providing.dom().contains(query) {
                post =~= LoopView { providing: pre.providing.remove(query), ..pre } && acts =~= seq![
                    Action::ReplyOk { ticket: pre.providing[query] },
                ]
            } else {
                post =~= pre && acts =~= Seq::<Action>::empty()
            }
        },
        NetworkEvent::ProvidersFound { query, providers } => {
            if pre.getting.dom().contains(query) {
                post =~= LoopView { getting: pre.getting.remove(query), ..pre } && acts =~= seq![
                    Action::ReplyProviders { ticket: pre.getting[query], providers },
                    Action::FinishQuery { query },
                ]
            } else {
                post =~= pre && acts =~= Seq::<Action>::empty()
            }
        },
        NetworkEvent::ProvidersFinished { query } => {
            if pre.getting.dom().contains(query) {
                post =~= LoopView { getting: pre.getting.remove(query), ..pre } && acts.len() == 1
                    && (acts[0] matches Action::ReplyProviders { ticket, providers } && ticket
                    == pre.getting[query] && providers@ =~= Seq::<u64>::empty())
            } else {
                post =~= pre && acts =~= Seq::<Action>::empty()
            }
        },
        NetworkEvent::InboundRequest { agent_name, message, channel } => post =~= pre && acts =~= seq![
            Action::EmitEvent { event: Event::InboundRequest { agent_name, message, channel } },
        ],
        NetworkEvent::InboundResponse { request, body } => {
            if pre.requests.dom().contains(request) {
                post =~= LoopView { requests: pre.requests.remove(request), ..pre } && acts =~= seq![
                    Action::ReplyBytes { ticket: pre.requests[request], body },
                ]
            } else {
                post =~= pre && acts =~= Seq::<Action>::empty()
            }
        },
        NetworkEvent::OutboundFailure { request, error } => {
            if pre.requests.dom().contains(request) {
                post =~= LoopView { requests: pre.requests.remove(request), ..pre } && acts =~= seq![
                    Action::ReplyError {
                        ticket: pre.requests[request],
                        error: NetError::RequestTransport(error),
                    },
                ]
            } else {
                post =~= pre && acts =~= Seq::<Action>::empty()
            }
        },
        NetworkEvent::ConnectionEstablished { peer, dialer } => {
            let completes = dialer && pre.dial.dom().contains(peer);
            let registers = pre.rendezvous_peer == Some(peer);
            post =~= LoopView {
                dial: if completes {
                    pre.dial.remove(peer)
                } else {
                    pre.dial
                },
                ..pre
            } && acts =~= (if completes {
                seq![Action::ReplyOk { ticket: pre.dial[peer] }]
            } else {
                Seq::<Action>::empty()
            }) + (if registers {
                seq![Action::RegisterRendezvous { peer }]
            } else {
                Seq::<Action>::empty()
            })
        },
        NetworkEvent::OutgoingConnectionError { peer, error } => {
            match peer {
                Some(p) => {
                    if pre.dial.dom().contains(p) {
                        post =~= LoopView { dial: pre.dial.remove(p), ..pre } && acts =~= seq![
                            Action::ReplyError {
                                ticket: pre.dial[p],
                                error: NetError::DialFailure(error),
                            },
                        ]
                    } else {
                        post =~= pre && acts =~= Seq::<Action>::empty()
                    }
                },
                None => post =~= pre && acts =~= Seq::<Action>::empty(),
            }
        },
        NetworkEvent::IdentifyReceived { observed } => post =~= pre && acts =~= seq![
            Action::AddExternalAddress { addr: observed },
        ],
        NetworkEvent::RendezvousDiscovered { cookie, registrations } => post =~= LoopView {
            cookie: Some(cookie),
            ..pre
        } && acts.len() == registrations@.len() && forall|i: int|
            0 <= i < acts.len() ==> acts[i] == (Action::DialAddress {
                addr: Address {
                    base: (#[trigger] registrations@[i]).1.base,
                    peer: Some(registrations@[i].0),
                },
            }),
        NetworkEvent::MdnsDiscovered { peers } => post =~= pre && acts.len() == peers@.len()
            && forall|i: int|
            0 <= i < acts.len() ==> acts[i] == (Action::AddExplicitPeer {
                peer: #[trigger] peers@[i],
            }),
        NetworkEvent::MdnsExpired { peers } => post =~= pre && acts.len() == peers@.len() && forall|
            i: int,
        |
            0 <= i < acts.len() ==> acts[i] == (Action::RemoveExplicitPeer {
                peer: #[trigger] peers@[i],
            }),
    }
}

/// What an outcome may assume of the state it meets: a library-assigned id
/// is fresh, never the id of an entry still pending.
pub open spec fn outcome_admissible(pre: LoopView, o: Outcome) -> bool {
    match o {
        Outcome::DialStarted { peer, ok, .. } => ok ==> !pre.dial.dom().contains(peer),
        Outcome::ProvideStarted { query, .. } => query matches Some(q) ==> !pre.providing.dom()
            .contains(q),
        Outcome::ProvidersQueryStarted { query, .. } => !pre.getting.dom().contains(query),
        Outcome::RequestSent { request, .. } => !pre.requests.dom().contains(request),
        _ => true,
    }
}

/// What every outcome does: register the pending entry its id opens, or
/// surface the failure on the command's ticket.
pub open spec fn outcome_step(
    pre: LoopView,
    o: Outcome,
    post: LoopView,
    acts: Seq<Action>,
) -> bool {
    match o {
        Outcome::ListenResult { ticket, ok, error } => post =~= pre && acts =~= (if ok {
            seq![Action::ReplyOk { ticket }]
        } else {
            seq![Action::ReplyError { ticket, error: NetError::BindFailure(error) }]
        }),
        Outcome::DialStarted { peer, ticket, ok, error } => {
            if ok {
                post =~= LoopView { dial: pre.dial.insert(peer, ticket), ..pre } && acts
                    =~= Seq::<Action>::empty()
            } else {
                post =~= pre && acts =~= seq![
                    Action::ReplyError { ticket, error: NetError::DialFailure(error) },
                ]
            }
        },
        Outcome::BootstrapDone { ticket } => post =~= pre && acts =~= seq![
            Action::ReplyOk { ticket },
        ],
        Outcome::ProvideStarted { ticket, query } => {
            match query {
                Some(q) => post =~= LoopView { providing: pre.providing.insert(q, ticket), ..pre }
                    && acts =~= Seq::<Action>::empty(),
                None => post =~= pre && acts =~= seq![
                    Action::ReplyError { ticket, error: NetError::ProviderStoreFull },
                ],
            }
        },
        Outcome::ProvidersQueryStarted { ticket, query } => post =~= LoopView {
            getting: pre.getting.insert(query, ticket),
            ..pre
        } && acts =~= Seq::<Action>::empty(),
        Outcome::RequestSent { ticket, request } => post =~= LoopView {
            requests: pre.requests.insert(request, ticket),
            ..pre
        } && acts =~= Seq::<Action>::empty(),
    }
}

/// The actions the loop performs before its first wake-up: record the
/// configured external address, dial the configured rendezvous address, and
/// attempt a rendezvous registration.
pub open spec fn startup_plan(v: LoopView) -> Seq<Action> {
    (match v.external_addr {
        Some(a) => seq![Action::AddExternalAddress { addr: a }],
        None => Seq::<Action>::empty(),
    }) + (match v.rendezvous_addr {
        Some(a) => seq![Action::DialAddress { addr: a }],
        None => Seq::<Action>::empty(),
    }) + (match v.rendezvous_peer {
        Some(p) => seq![Action::RegisterRendezvous { peer: p }],
        None => Seq::<Action>::empty(),
    })
}

impl EventLoop {
    /// The pending tables hold no duplicate ids.
    pub closed spec fn wf(&self) -> bool {
        self.pending_dial.wf() && self.pending_start_providing.wf()
            && self.pending_get_providers.wf() && self.pending_request.wf()
    }

    /// A fresh loop: empty pending tables, no cookie, and the given
    /// rendezvous and address configuration.
    pub fn new(
        rendezvous_point: Option<u64>,
        rendezvous_point_address: Option<Address>,
        external_address: Option<Address>,
    ) -> (l: EventLoop)
        ensures
            l.wf(),
            l@.dial =~= Map::<u64, u64>::empty(),
            l@.providing =~= Map::<u64, u64>::empty(),
            l@.getting =~= Map::<u64, u64>::empty(),
            l@.requests =~= Map::<u64, u64>::empty(),
            l@.cookie is None,
            l@.rendezvous_peer == rendezvous_point,
            l@.rendezvous_addr == rendezvous_point_address,
            l@.external_addr == external_address,
    {
        EventLoop {
            pending_dial: PendingTable::new(),
            pending_start_providing: PendingTable::new(),
            pending_get_providers: PendingTable::new(),
            pending_request: PendingTable::new(),
            cookie: None,
            rendezvous_point,
            rendezvous_point_address,
            external_address,
        }
    }

    /// Whether a dial to the peer is outstanding.
    pub fn has_pending_dial(&self, peer: u64) -> (r: bool)
        ensures
            r == self@.dial.dom().contains(peer),
    {
        self.pending_dial.contains(peer)
    }

    /// Whether a start-providing query with the id is outstanding.
    pub fn has_pending_providing(&self, query: u64) -> (r: bool)
        ensures
            r == self@.providing.dom().contains(query),
    {
        self.pending_start_providing.contains(query)
    }

    /// Whether a provider lookup with the id is outstanding.
    pub fn has_pending_getting(&self, query: u64) -> (r: bool)
        ensures
            r == self@.getting.dom().contains(query),
    {
        self.pending_get_providers.contains(query)
    }

    /// Whether an outbound request with the id is outstanding.
    pub fn has_pending_request(&self, request: u64) -> (r: bool)
        ensures
            r == self@.requests.dom().contains(request),
    {
        self.pending_request.contains(request)
    }

    /// Decide a command: reject a duplicate dial outright, otherwise turn the
    /// command into the swarm instructions that carry it out.
    pub fn handle_command(&mut self, cmd: Command) -> (acts: Vec<Action>)
        requires
            old(self).wf(),
        ensures
            final(self).wf(),
            command_step(old(self)@, cmd, final(self)@, acts@),
    {
        let mut acts: Vec<Action> = Vec::new();
        match cmd {
            Command::StartListening { addr, ticket } => {
                acts.push(Action::StartListen { addr, ticket });
            },
            Command::Dial { peer_id, peer_addr, ticket } => {
                if self.pending_dial.contains(peer_id) {
                    acts.push(Action::ReplyError { ticket, error: NetError::DuplicateDial });
                } else {
                    let dial_addr = peer_addr.with_peer(peer_id);
                    acts.push(Action::AddKadAddress { peer: peer_id, addr: peer_addr });
                    acts.push(Action::DialPeer { peer: peer_id, addr: dial_addr, ticket });
                }
            },
            Command::Bootstrap { ticket } => {
                acts.push(Action::RunBootstrap { ticket });
            },
            Command::StartProviding { agent_name, ticket } => {
                let key = agent_name.as_str().as_bytes_vec();
                acts.push(Action::KadStartProviding { key, ticket });
            },
            Command::GetProviders { agent_name, ticket } => {
                let key = agent_name.as_str().as_bytes_vec();
                acts.push(Action::KadGetProviders { key, ticket });
            },
            Command::RequestAgent { agent_name, message, peer, ticket } => {
                acts.push(
                    Action::SendRequest { peer, request: LLMRequest(agent_name, message), ticket },
                );
            },
            Command::RespondLLM { llm_output, channel } => {
                acts.push(Action::SendResponse { channel, response: LLMResponse(llm_output) });
            },
            Command::GossipMessage { topic, message } => {
                let data = message.as_str().as_bytes_vec();
                acts.push(Action::PublishGossip { topic, data });
            },
        }
        acts
    }

    /// Decide a protocol event: complete the pending entry its id matches,
    /// forward an inbound request, track discovery state — and tolerate a
    /// terminal event for an unknown id without aborting.
    pub fn handle_event(&mut self, ev: NetworkEvent) -> (acts: Vec<Action>)
        requires
            old(self).wf(),
        ensures
            final(self).wf(),
            event_step(old(self)@, ev, final(self)@, acts@),
    {
        let mut acts: Vec<Action> = Vec::new();
        match ev {
            NetworkEvent::StartProvidingProgressed { query } => {
                match self.pending_start_providing.remove(query) {
                    Some(t) => {
                        acts.push(Action::ReplyOk { ticket: t });
                    },
                    None => {},
                }
            },
            NetworkEvent::ProvidersFound { query, providers } => {
                match self.pending_get_providers.remove(query) {
                    Some(t) => {
                        acts.push(Action::ReplyProviders { ticket: t, providers });
                        acts.push(Action::FinishQuery { query });
                    },
                    None => {},
                }
            },
            NetworkEvent::ProvidersFinished { query } => {
                match self.pending_get_providers.remove(query) {
                    Some(t) => {
                        let none_found: Vec<u64> = Vec::new();
                        acts.push(Action::ReplyProviders { ticket: t, providers: none_found });
                    },
                    None => {},
                }
            },
            NetworkEvent::InboundRequest { agent_name, message, channel } => {
                acts.push(
                    Action::EmitEvent {
                        event: Event::InboundRequest { agent_name, message, channel },
                    },
                );
            },
            NetworkEvent::InboundResponse { request, body } => {
                match self.pending_request.remove(request) {
                    Some(t) => {
                        acts.push(Action::ReplyBytes { ticket: t, body });
                    },
                    None => {},
                }
            },
            NetworkEvent::OutboundFailure { request, error } => {
                match self.pending_request.remove(request) {
                    Some(t) => {
                        acts.push(
                            Action::ReplyError {
                                ticket: t,
                                error: NetError::RequestTransport(error),
                            },
                        );
                    },
                    None => {},
                }
            },
            NetworkEvent::ConnectionEstablished { peer, dialer } => {
                if dialer {
                    match self.pending_dial.remove(peer) {
                        Some(t) => {
                            acts.push(Action::ReplyOk { ticket: t });
                        },
                        None => {},
                    }
                }
                let registers = match self.rendezvous_point {
                    Some(rp) => rp == peer,
                    None => false,
                };
                if registers {
                    acts.push(Action::RegisterRendezvous { peer });
                }
            },
            NetworkEvent::OutgoingConnectionError { peer, error } => {
                match peer {
                    Some(p) => {
                        match self.pending_dial.remove(p) {
                            Some(t) => {
                                acts.push(
                                    Action::ReplyError {
                                        ticket: t,
                                        error: NetError::DialFailure(error),
                                    },
                                );
                            },
                            None => {},
                        }
                    },
                    None => {},
                }
            },
            NetworkEvent::IdentifyReceived { observed } => {
                acts.push(Action::AddExternalAddress { addr: observed });
            },
            NetworkEvent::RendezvousDiscovered { cookie, registrations } => {
                self.cookie = Some(cookie);
                let n = registrations.len();
                let mut i: usize = 0;
                while i < n
                    invariant
                        0 <= i <= n,
                        n == registrations@.len(),
                        acts@.len() == i,
                        forall|j: int|
                            0 <= j < i ==> acts@[j] == (Action::DialAddress {
                                addr: Address {
                                    base: (#[trigger] registrations@[j]).1.base,
                                    peer: Some(registrations@[j].0),
                                },
                            }),
                    decreases n - i,
                {
                    let entry = &registrations[i];
                    let addr = entry.1.with_peer(entry.0);
                    proof {
                        assert(addr == (Address {
                            base: registrations@[i as int].1.base,
                            peer: Some(registrations@[i as int].0),
                        }));
                    }
                    acts.push(Action::DialAddress { addr });
                    i = i + 1;
                }
            },
            NetworkEvent::MdnsDiscovered { peers } => {
                let n = peers.len();
                let mut i: usize = 0;
                while i < n
                    invariant
                        0 <= i <= n,
                        n == peers@.len(),
                        acts@.len() == i,
                        forall|j: int|
                            0 <= j < i ==> acts@[j] == (Action::AddExplicitPeer {
                                peer: #[trigger] peers@[j],
                            }),
                    decreases n - i,
                {
                    acts.push(Action::AddExplicitPeer { peer: peers[i] });
                    i = i + 1;
                }
            },
            NetworkEvent::MdnsExpired { peers } => {
                let n = peers.len();
                let mut i: usize = 0;
                while i < n
                    invariant
                        0 <= i <= n,
                        n == peers@.len(),
                        acts@.len() == i,
                        forall|j: int|
                            0 <= j < i ==> acts@[j] == (Action::RemoveExplicitPeer {
                                peer: #[trigger] peers@[j],
                            }),
                    decreases n - i,
                {
                    acts.push(Action::RemoveExplicitPeer { peer: peers[i] });
                    i = i + 1;
                }
            },
        }
        acts
    }

    /// Decide the immediate result of a swarm call: register the id the call
    /// handed back, or surface the failure on the command's ticket.
    pub fn handle_outcome(&mut self, o: Outcome) -> (acts: Vec<Action>)
        requires
            old(self).wf(),
            outcome_admissible(old(self)@, o),
        ensures
            final(self).wf(),
            outcome_step(old(self)@, o, final(self)@, acts@),
    {
        let mut acts: Vec<Action> = Vec::new();
        match o {
            Outcome::ListenResult { ticket, ok, error } => {
                if ok {
                    acts.push(Action::ReplyOk { ticket });
                } else {
                    acts.push(Action::ReplyError { ticket, error: NetError::BindFailure(error) });
                }
            },
            Outcome::DialStarted { peer, ticket, ok, error } => {
                if ok {
                    self.pending_dial.insert(peer, ticket);
                } else {
                    acts.push(Action::ReplyError { ticket, error: NetError::DialFailure(error) });
                }
            },
            Outcome::BootstrapDone { ticket } => {
                acts.push(Action::ReplyOk { ticket });
            },
            Outcome::ProvideStarted { ticket, query } => {
                match query {
                    Some(q) => {
                        self.pending_start_providing.insert(q, ticket);
                    },
                    None => {
                        acts.push(
                            Action::ReplyError { ticket, error: NetError::ProviderStoreFull },
                        );
                    },
                }
            },
            Outcome::ProvidersQueryStarted { ticket, query } => {
                self.pending_get_providers.insert(query, ticket);
            },
            Outcome::RequestSent { ticket, request } => {
                self.pending_request.insert(request, ticket);
            },
        }
        acts
    }

    /// The actions to perform before the loop's first wake-up.
    pub fn startup_actions(&self) -> (acts: Vec<Action>)
        requires
            self.wf(),
        ensures
            acts@ =~= startup_plan(self@),
    {
        let mut acts: Vec<Action> = Vec::new();
        match &self.external_address {
            Some(a) => {
                acts.push(Action::AddExternalAddress { addr: a.clone() });
            },
            None => {},
        }
        match &self.rendezvous_point_address {
            Some(a) => {
                acts.push(Action::DialAddress { addr: a.clone() });
            },
            None => {},
        }
        match self.rendezvous_point {
            Some(p) => {
                acts.push(Action::RegisterRendezvous { peer: p });
            },
            None => {},
        }
        acts
    }

    /// The action of a periodic discovery tick: when a rendezvous peer is
    /// configured, fire a discovery carrying the current cookie.
    pub fn tick(&self) -> (acts: Vec<Action>)
        requires
            self.wf(),
        ensures
            acts@ =~= (match self@.rendezvous_peer {
                Some(p) => seq![Action::DiscoverRendezvous { peer: p, cookie: self@.cookie }],
                None => Seq::<Action>::empty(),
            }),
    {
        let mut acts: Vec<Action> = Vec::new();
        match self.rendezvous_point {
            Some(p) => {
                acts.push(Action::DiscoverRendezvous { peer: p, cookie: self.cookie });
            },
            None => {},
        }
        acts
    }

    /// Wind the loop down: every pending entry is dropped and its ticket
    /// abandoned, exactly once each; the waiters observe closed channels.
    pub fn shutdown(&mut self) -> (acts: Vec<Action>)
        requires
            old(self).wf(),
        ensures
            final(self).wf(),
            final(self)@.dial =~= Map::<u64, u64>::empty(),
            final(self)@.providing =~= Map::<u64, u64>::empty(),
            final(self)@.getting =~= Map::<u64, u64>::empty(),
            final(self)@.requests =~= Map::<u64, u64>::empty(),
            final(self)@.cookie == old(self)@.cookie,
            final(self)@.rendezvous_peer == old(self)@.rendezvous_peer,
            acts@.len() == old(self)@.dial.dom().len() + old(self)@.providing.dom().len() + old(
                self,
            )@.getting.dom().len() + old(self)@.requests.dom().len(),
            forall|j: int|
                0 <= j < acts@.len() ==> #[trigger] acts@[j] matches Action::AbandonTicket { .. },
            forall|k: u64| #[trigger]
                old(self)@.dial.dom().contains(k) ==> acts@.contains(
                    Action::AbandonTicket { ticket: old(self)@.dial[k] },
                ),
            forall|k: u64| #[trigger]
                old(self)@.providing.dom().contains(k) ==> acts@.contains(
                    Action::AbandonTicket { ticket: old(self)@.providing[k] },
                ),
            forall|k: u64| #[trigger]
                old(self)@.getting.dom().contains(k) ==> acts@.contains(
                    Action::AbandonTicket { ticket: old(self)@.getting[k] },
                ),
            forall|k: u64| #[trigger]
                old(self)@.requests.dom().contains(k) ==> acts@.contains(
                    Action::AbandonTicket { ticket: old(self)@.requests[k] },
                ),
    {
        let mut acts: Vec<Action> = Vec::new();
        let dial_tickets = self.pending_dial.tickets();
        let providing_tickets = self.pending_start_providing.tickets();
        let getting_tickets = self.pending_get_providers.tickets();
        let request_tickets = self.pending_request.tickets();
        let ghost d = dial_tickets@.len() as int;
        let ghost p = providing_tickets@.len() as int;
        let ghost g = getting_tickets@.len() as int;
        let ghost q = request_tickets@.len() as int;
        push_abandons(&mut acts, &dial_tickets);
        let ghost a1 = acts@;
        push_abandons(&mut acts, &providing_tickets);
        let ghost a2 = acts@;
        push_abandons(&mut acts, &getting_tickets);
        let ghost a3 = acts@;
        push_abandons(&mut acts, &request_tickets);
        proof {
            assert(a1.len() == d && a2.len() == d + p && a3.len() == d + p + g && acts@.len() == d
                + p + g + q);
            assert forall|j: int|
                0 <= j < acts@.len() implies #[trigger] acts@[j] matches Action::AbandonTicket {
                ..
            } by {
                if j < d {
                    assert(a1[j] == (Action::AbandonTicket { ticket: dial_tickets@[j] }));
                    assert(acts@[j] == a3[j] && a3[j] == a2[j] && a2[j] == a1[j]);
                } else if j < d + p {
                    assert(a2[d + (j - d)] == (Action::AbandonTicket {
                        ticket: providing_tickets@[j - d],
                    }));
                    assert(acts@[j] == a3[j] && a3[j] == a2[j]);
                } else if j < d + p + g {
                    assert(a3[(d + p) + (j - d - p)] == (Action::AbandonTicket {
                        ticket: getting_tickets@[j - d - p],
                    }));
                    assert(acts@[j] == a3[j]);
                } else {
                    assert(acts@[(d + p + g) + (j - d - p - g)] == (Action::AbandonTicket {
                        ticket: request_tickets@[j - d - p - g],
                    }));
                }
            }
            assert forall|k: u64| #[trigger]
                old(self)@.dial.dom().contains(k) implies acts@.contains(
                Action::AbandonTicket { ticket: old(self)@.dial[k] },
            ) by {
                let j = choose|j: int|
                    0 <= j < dial_tickets@.len() && dial_tickets@[j] == old(self)@.dial[k];
                assert(a1[0 + j] == (Action::AbandonTicket { ticket: dial_tickets@[j] }));
                assert(acts@[j] == a3[j] && a3[j] == a2[j] && a2[j] == a1[j]);
            }
            assert forall|k: u64| #[trigger]
                old(self)@.providing.dom().contains(k) implies acts@.contains(
                Action::AbandonTicket { ticket: old(self)@.providing[k] },
            ) by {
                let j = choose|j: int|
                    0 <= j < providing_tickets@.len() && providing_tickets@[j] == old(
                        self,
                    )@.providing[k];
                assert(a2[d + j] == (Action::AbandonTicket { ticket: providing_tickets@[j] }));
                assert(acts@[d + j] == a3[d + j] && a3[d + j] == a2[d + j]);
            }
            assert forall|k: u64| #[trigger]
                old(self)@.getting.dom().contains(k) implies acts@.contains(
                Action::AbandonTicket { ticket: old(self)@.getting[k] },
            ) by {
                let j = choose|j: int|
                    0 <= j < getting_tickets@.len() && getting_tickets@[j] == old(
                        self,
                    )@.getting[k];
                assert(a3[(d + p) + j] == (Action::AbandonTicket { ticket: getting_tickets@[j] }));
                assert(acts@[d + p + j] == a3[d + p + j]);
            }
            assert forall|k: u64| #[trigger]
                old(self)@.requests.dom().contains(k) implies acts@.contains(
                Action::AbandonTicket { ticket: old(self)@.requests[k] },
            ) by {
                let j = choose|j: int|
                    0 <= j < request_tickets@.len() && request_tickets@[j] == old(
                        self,
                    )@.requests[k];
                assert(acts@[(d + p + g) + j] == (Action::AbandonTicket {
                    ticket: request_tickets@[j],
                }));
            }
        }
        self.pending_dial = PendingTable::new();
        self.pending_start_providing = PendingTable::new();
        self.pending_get_providers = PendingTable::new();
        self.pending_request = PendingTable::new();
        acts
    }
}

/// Whether the action completes the reply sink `t`.
pub open spec fn is_reply_for(a: Action, t: u64) -> bool {
    ||| a matches Action::ReplyOk { ticket } && ticket == t
    ||| a matches Action::ReplyError { ticket, .. } && ticket == t
    ||| a matches Action::ReplyProviders { ticket, .. } && ticket == t
    ||| a matches Action::ReplyBytes { ticket, .. } && ticket == t
}

/// Whether the action is a swarm instruction whose outcome will come back
/// carrying the ticket `t`.
pub open spec fn is_instruction_for(a: Action, t: u64) -> bool {
    ||| a matches Action::StartListen { ticket, .. } && ticket == t
    ||| a matches Action::DialPeer { ticket, .. } && ticket == t
    ||| a matches Action::RunBootstrap { ticket } && ticket == t
    ||| a matches Action::KadStartProviding { ticket, .. } && ticket == t
    ||| a matches Action::KadGetProviders { ticket, .. } && ticket == t
    ||| a matches Action::SendRequest { ticket, .. } && ticket == t
}

/// How many actions of the list complete the reply sink `t`.
pub open spec fn reply_count(acts: Seq<Action>, t: u64) -> nat
    decreases acts.len(),
{
    if acts.len() == 0 {
        0
    } else {
        (if is_reply_for(acts.first(), t) {
            1nat
        } else {
            0nat
        }) + reply_count(acts.drop_first(), t)
    }
}

/// How many actions of the list are instructions for the ticket `t`.
pub open spec fn instruction_count(acts: Seq<Action>, t: u64) -> nat
    decreases acts.len(),
{
    if acts.len() == 0 {
        0
    } else {
        (if is_instruction_for(acts.first(), t) {
            1nat
        } else {
            0nat
        }) + instruction_count(acts.drop_first(), t)
    }
}

/// The reply sink a command waits on, if it waits on one.
pub open spec fn command_ticket(cmd: Command) -> Option<u64> {
    match cmd {
        Command::StartListening { ticket, .. } => Some(ticket),
        Command::Dial { ticket, .. } => Some(ticket),
        Command::Bootstrap { ticket } => Some(ticket),
        Command::StartProviding { ticket, .. } => Some(ticket),
        Command::GetProviders { ticket, .. } => Some(ticket),
        Command::RequestAgent { ticket, .. } => Some(ticket),
        Command::RespondLLM { .. } => None,
        Command::GossipMessage { .. } => None,
    }
}

proof fn lemma_counts_one(a: Action, t: u64)
    ensures
        reply_count(seq![a], t) == if is_reply_for(a, t) {
            1nat
        } else {
            0nat
        },
        instruction_count(seq![a], t) == if is_instruction_for(a, t) {
            1nat
        } else {
            0nat
        },
{
    assert(seq![a].drop_first() =~= Seq::<Action>::empty());
    assert(seq![a].drop_first() == Seq::<Action>::empty());
    assert(seq![a].first() == a);
    assert(reply_count(Seq::<Action>::empty(), t) == 0);
    assert(instruction_count(Seq::<Action>::empty(), t) == 0);
}

proof fn lemma_counts_two(a: Action, b: Action, t: u64)
    ensures
        reply_count(seq![a, b], t) == reply_count(seq![a], t) + reply_count(seq![b], t),
        instruction_count(seq![a, b], t) == instruction_count(seq![a], t) + instruction_count(
            seq![b],
            t,
        ),
{
    assert(seq![a, b].drop_first() =~= seq![b]);
    assert(seq![a, b].drop_first() == seq![b]);
    assert(seq![a, b].first() == a);
    lemma_counts_one(a, t);
}

/// Every command accepted while the loop runs leaves all pending tables
/// untouched, and what it puts in motion concerns its own reply sink alone:
/// a waiting command's actions carry its ticket exactly once — as the one
/// immediate reply, or as the one swarm instruction whose outcome will
/// settle it — and a fire-and-forget command's actions complete no sink and
/// carry no ticket at all.
pub proof fn lemma_command_settles_its_own_ticket(
    pre: LoopView,
    cmd: Command,
    post: LoopView,
    acts: Seq<Action>,
)
    requires
        command_step(pre, cmd, post, acts),
    ensures
        post =~= pre,
        match command_ticket(cmd) {
            Some(t) => reply_count(acts, t) + instruction_count(acts, t) == 1,
            None => forall|t: u64|
                reply_count(acts, t) == 0 && instruction_count(acts, t) == 0,
        },
{
    match cmd {
        Command::StartListening { addr, ticket } => {
            lemma_counts_one(acts[0], ticket);
            assert(acts =~= seq![acts[0]]);
        },
        Command::Dial { peer_id, peer_addr, ticket } => {
            if pre.dial.dom().contains(peer_id) {
                lemma_counts_one(acts[0], ticket);
                assert(acts =~= seq![acts[0]]);
            } else {
                lemma_counts_two(acts[0], acts[1], ticket);
                lemma_counts_one(acts[0], ticket);
                lemma_counts_one(acts[1], ticket);
                assert(acts =~= seq![acts[0], acts[1]]);
            }
        },
        Command::Bootstrap { ticket } => {
            lemma_counts_one(acts[0], ticket);
            assert(acts =~= seq![acts[0]]);
        },
        Command::StartProviding { agent_name, ticket } => {
            lemma_counts_one(acts[0], ticket);
            assert(acts =~= seq![acts[0]]);
        },
        Command::GetProviders { agent_name, ticket } => {
            lemma_counts_one(acts[0], ticket);
            assert(acts =~= seq![acts[0]]);
        },
        Command::RequestAgent { agent_name, message, peer, ticket } => {
            lemma_counts_one(acts[0], ticket);
            assert(acts =~= seq![acts[0]]);
        },
        Command::RespondLLM { llm_output, channel } => {
            assert forall|t: u64|
                reply_count(acts, t) == 0 && instruction_count(acts, t) == 0 by {
                lemma_counts_one(acts[0], t);
                assert(acts =~= seq![acts[0]]);
            }
        },
        Command::GossipMessage { topic, message } => {
            assert forall|t: u64|
                reply_count(acts, t) == 0 && instruction_count(acts, t) == 0 by {
                lemma_counts_one(acts[0], t);
                assert(acts =~= seq![acts[0]]);
            }
        },
    }
}

/// A protocol event never registers a pending entry.  Each table either
/// stays as it is or loses exactly the entry the event's id names, and a
/// lost entry's ticket is completed by exactly one reply action of that very
/// step: every registered id meets exactly one terminal event.
pub proof fn lemma_event_matching_discipline(
    pre: LoopView,
    ev: NetworkEvent,
    post: LoopView,
    acts: Seq<Action>,
)
    requires
        event_step(pre, ev, post, acts),
    ensures
        forall|k: u64| #[trigger]
            post.dial.dom().contains(k) ==> pre.dial.dom().contains(k) && post.dial[k]
                == pre.dial[k],
        forall|k: u64| #[trigger]
            post.providing.dom().contains(k) ==> pre.providing.dom().contains(k)
                && post.providing[k] == pre.providing[k],
        forall|k: u64| #[trigger]
            post.getting.dom().contains(k) ==> pre.getting.dom().contains(k) && post.getting[k]
                == pre.getting[k],
        forall|k: u64| #[trigger]
            post.requests.dom().contains(k) ==> pre.requests.dom().contains(k)
                && post.requests[k] == pre.requests[k],
        forall|k: u64| #[trigger]
            pre.dial.dom().contains(k) && !post.dial.dom().contains(k) ==> reply_count(
                acts,
                pre.dial[k],
            ) == 1,
        forall|k: u64| #[trigger]
            pre.providing.dom().contains(k) && !post.providing.dom().contains(k) ==> reply_count(
                acts,
                pre.providing[k],
            ) == 1,
        forall|k: u64| #[trigger]
            pre.getting.dom().contains(k) && !post.getting.dom().contains(k) ==> reply_count(
                acts,
                pre.getting[k],
            ) == 1,
        forall|k: u64| #[trigger]
            pre.requests.dom().contains(k) && !post.requests.dom().contains(k) ==> reply_count(
                acts,
                pre.requests[k],
            ) == 1,
{
    match ev {
        NetworkEvent::StartProvidingProgressed { query } => {
            if pre.providing.dom().contains(query) {
                lemma_counts_one(acts[0], pre.providing[query]);
                assert(acts =~= seq![acts[0]]);
            }
        },
        NetworkEvent::ProvidersFound { query, providers } => {
            if pre.getting.dom().contains(query) {
                lemma_counts_two(acts[0], acts[1], pre.getting[query]);
                lemma_counts_one(acts[0], pre.getting[query]);
                lemma_counts_one(acts[1], pre.getting[query]);
                assert(acts =~= seq![acts[0], acts[1]]);
            }
        },
        NetworkEvent::ProvidersFinished { query } => {
            if pre.getting.dom().contains(query) {
                lemma_counts_one(acts[0], pre.getting[query]);
                assert(acts =~= seq![acts[0]]);
            }
        },
        NetworkEvent::InboundRequest { .. } => {},
        NetworkEvent::InboundResponse { request, body } => {
            if pre.requests.dom().contains(request) {
                lemma_counts_one(acts[0], pre.requests[request]);
                assert(acts =~= seq![acts[0]]);
            }
        },
        NetworkEvent::OutboundFailure { request, error } => {
            if pre.requests.dom().contains(request) {
                lemma_counts_one(acts[0], pre.requests[request]);
                assert(acts =~= seq![acts[0]]);
            }
        },
        NetworkEvent::ConnectionEstablished { peer, dialer } => {
            let completes = dialer && pre.dial.dom().contains(peer);
            if completes {
                if pre.rendezvous_peer == Some(peer) {
                    lemma_counts_two(acts[0], acts[1], pre.dial[peer]);
                    lemma_counts_one(acts[0], pre.dial[peer]);
                    lemma_counts_one(acts[1], pre.dial[peer]);
                    assert(acts =~= seq![acts[0], acts[1]]);
                } else {
                    lemma_counts_one(acts[0], pre.dial[peer]);
                    assert(acts =~= seq![acts[0]]);
                }
            }
        },
        NetworkEvent::OutgoingConnectionError { peer, error } => {
            match peer {
                Some(p) => {
                    if pre.dial.dom().contains(p) {
                        lemma_counts_one(acts[0], pre.dial[p]);
                        assert(acts =~= seq![acts[0]]);
                    }
                },
                None => {},
            }
        },
        NetworkEvent::IdentifyReceived { .. } => {},
        NetworkEvent::RendezvousDiscovered { .. } => {},
        NetworkEvent::MdnsDiscovered { .. } => {},
        NetworkEvent::MdnsExpired { .. } => {},
    }
}

/// An outcome settles the command that caused it in exactly one way: it
/// either completes the command's reply sink once and leaves the state
/// alone, or it registers the sink's ticket under the library-assigned id —
/// never both and never neither.
pub proof fn lemma_outcome_registers_or_replies(
    pre: LoopView,
    o: Outcome,
    post: LoopView,
    acts: Seq<Action>,
)
    requires
        outcome_admissible(pre, o),
        outcome_step(pre, o, post, acts),
    ensures
        match o {
            Outcome::ListenResult { ticket, .. } => post =~= pre && reply_count(acts, ticket)
                == 1,
            Outcome::DialStarted { peer, ticket, ok, .. } => {
                if ok {
                    reply_count(acts, ticket) == 0 && post.dial.dom().contains(peer)
                        && post.dial[peer] == ticket && post.dial.dom() =~= pre.dial.dom().insert(
                        peer,
                    )
                } else {
                    post =~= pre && reply_count(acts, ticket) == 1
                }
            },
            Outcome::BootstrapDone { ticket } => post =~= pre && reply_count(acts, ticket) == 1,
            Outcome::ProvideStarted { ticket, query } => {
                match query {
                    Some(q) => reply_count(acts, ticket) == 0 && post.providing.dom().contains(q)
                        && post.providing[q] == ticket && post.providing.dom()
                        =~= pre.providing.dom().insert(q),
                    None => post =~= pre && reply_count(acts, ticket) == 1,
                }
            },
            Outcome::ProvidersQueryStarted { ticket, query } => reply_count(acts, ticket) == 0
                && post.getting.dom().contains(query) && post.getting[query] == ticket
                && post.getting.dom() =~= pre.getting.dom().insert(query),
            Outcome::RequestSent { ticket, request } => reply_count(acts, ticket) == 0
                && post.requests.dom().contains(request) && post.requests[request] == ticket
                && post.requests.dom() =~= pre.requests.dom().insert(request),
        },
{
    match o {
        Outcome::ListenResult { ticket, ok, error } => {
            lemma_counts_one(acts[0], ticket);
            assert(acts =~= seq![acts[0]]);
        },
        Outcome::DialStarted { peer, ticket, ok, error } => {
            if !ok {
                lemma_counts_one(acts[0], ticket);
                assert(acts =~= seq![acts[0]]);
            }
        },
        Outcome::BootstrapDone { ticket } => {
            lemma_counts_one(acts[0], ticket);
            assert(acts =~= seq![acts[0]]);
        },
        Outcome::ProvideStarted { ticket, query } => {
            match query {
                Some(_) => {},
                None => {
                    lemma_counts_one(acts[0], ticket);
                    assert(acts =~= seq![acts[0]]);
                },
            }
        },
        Outcome::ProvidersQueryStarted { .. } => {},
        Outcome::RequestSent { .. } => {},
    }
}

/// A second dial to a peer whose first dial is still outstanding is
/// rejected: the state does not change and the caller gets exactly the
/// duplicate-dial error.
pub proof fn lemma_duplicate_dial_rejected(
    pre: LoopView,
    peer_id: u64,
    peer_addr: Address,
    ticket: u64,
    post: LoopView,
    acts: Seq<Action>,
)
    requires
        command_step(pre, Command::Dial { peer_id, peer_addr, ticket }, post, acts),
        pre.dial.dom().contains(peer_id),
    ensures
        post =~= pre,
        acts =~= seq![Action::ReplyError { ticket, error: NetError::DuplicateDial }],
{
}

/// A provider lookup that terminates without finding a provider reports the
/// empty set on the command's own reply sink — never an error.
pub proof fn lemma_no_providers_is_empty_not_error(
    pre: LoopView,
    query: u64,
    post: LoopView,
    acts: Seq<Action>,
)
    requires
        event_step(pre, NetworkEvent::ProvidersFinished { query }, post, acts),
        pre.getting.dom().contains(query),
    ensures
        acts.len() == 1,
        acts[0] matches Action::ReplyProviders { ticket, providers } && ticket
            == pre.getting[query] && providers@ =~= Seq::<u64>::empty(),
        forall|j: int| 0 <= j < acts.len() ==> !(#[trigger] acts[j] matches Action::ReplyError {
            ..
        }),
{
}

/// An inbound request only travels out to the application: it touches no
/// pending table and completes no reply sink, so a requester kept waiting by
/// a silent handler stays pending until its own transport timeout fires.
pub proof fn lemma_inbound_request_only_forwards(
    pre: LoopView,
    agent_name: String,
    message: String,
    channel: u64,
    post: LoopView,
    acts: Seq<Action>,
)
    requires
        event_step(
            pre,
            NetworkEvent::InboundRequest { agent_name, message, channel },
            post,
            acts,
        ),
    ensures
        post =~= pre,
        forall|t: u64| reply_count(acts, t) == 0,
        acts =~= seq![
            Action::EmitEvent { event: Event::InboundRequest { agent_name, message, channel } },
        ],
{
    assert forall|t: u64| reply_count(acts, t) == 0 by {
        lemma_counts_one(acts[0], t);
        assert(acts =~= seq![acts[0]]);
    }
}

/// Append one abandon action for each ticket.
fn push_abandons(acts: &mut Vec<Action>, tickets: &Vec<u64>)
    ensures
        final(acts)@.len() == old(acts)@.len() + tickets@.len(),
        forall|j: int|
            0 <= j < old(acts)@.len() ==> #[trigger] final(acts)@[j] == old(acts)@[j],
        forall|j: int|
            old(acts)@.len() <= j < final(acts)@.len() ==> #[trigger] final(acts)@[j]
                == (Action::AbandonTicket { ticket: tickets@[j - old(acts)@.len()] }),
{
    let n = tickets.len();
    let mut i: usize = 0;
    while i < n
        invariant
            0 <= i <= n,
            n == tickets@.len(),
            acts@.len() == old(acts)@.len() + i,
            forall|j: int| 0 <= j < old(acts)@.len() ==> #[trigger] acts@[j] == old(acts)@[j],
            forall|j: int|
                old(acts)@.len() <= j < acts@.len() ==> #[trigger] acts@[j]
                    == (Action::AbandonTicket { ticket: tickets@[j - old(acts)@.len()] }),
        decreases n - i,
    {
        acts.push(Action::AbandonTicket { ticket: tickets[i] });
        i = i + 1;
    }
}

} // verus!
