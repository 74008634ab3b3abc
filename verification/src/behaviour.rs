//! The composite behaviour's verifiable state and configuration.
//!
//! The node aggregates its discovery, reachability, exchange and gossip
//! sub-protocols into one unit.  What this module holds of it is the part the
//! logic decides on: the set of subscribed gossip topics, the DHT mode, and
//! the fixed configuration values every sub-protocol is built with.  The
//! protocol machinery itself lives with the swarm, outside the library.

use vstd::prelude::*;

verus! {

/// The protocol-version string identify advertises, also used as the
/// request/response stream protocol.
pub fn protocol_version() -> (r: &'static str)
    ensures
        r@ == "/asn/1.0.0"@,
{
    "/asn/1.0.0"
}

/// The namespace used for rendezvous registration and discovery.
pub fn rendezvous_namespace() -> (r: &'static str)
    ensures
        r@ == "binary-souls"@,
{
    "binary-souls"
}

/// The first topic every bootstrapped node subscribes to.
pub fn topic_everyone() -> (r: &'static str)
    ensures
        r@ == "everyone"@,
{
    "everyone"
}

/// The second topic every bootstrapped node subscribes to.
pub fn topic_capabilities() -> (r: &'static str)
    ensures
        r@ == "capabilities"@,
{
    "capabilities"
}

/// The 32-byte secret-key buffer a caller-supplied seed expands to: the
/// seed in the first byte, zeroes after it.  Deterministic, for local
/// testing; a node without a seed draws a fresh key instead.
pub fn seed_key_bytes(seed: u8) -> (r: Vec<u8>)
    ensures
        r@.len() == 32,
        r@[0] == seed,
        forall|i: int| 1 <= i < 32 ==> r@[i] == 0u8,
{
    let mut r: Vec<u8> = Vec::new();
    r.push(seed);
    let mut i: usize = 1;
    while i < 32
        invariant
            1 <= i <= 32,
            r@.len() == i,
            r@[0] == seed,
            forall|j: int| 1 <= j < i ==> r@[j] == 0u8,
        decreases 32 - i,
    {
        r.push(0);
        i = i + 1;
    }
    r
}

/// String equality, by contents.
fn str_eq(a: &String, b: &String) -> (r: bool)
    ensures
        r == (a@ == b@),
{
    a.eq(b)
}

/// The fixed values the node's sub-protocols are configured with.
#[derive(Debug, Clone, Copy, PartialEq, Eq, Structural)]
pub struct NetConfig {
    /// Seconds between republications of DHT provider records.
    pub provider_republish_secs: u64,
    /// Liveness probe interval, seconds.
    pub ping_interval_secs: u64,
    /// Liveness probe timeout, seconds.
    pub ping_timeout_secs: u64,
    /// Gossip heartbeat interval, seconds.
    pub gossip_heartbeat_secs: u64,
    /// Gossip message history kept for duplicate suppression.
    pub gossip_history_length: u64,
    /// Gossip history windows advertised to peers.
    pub gossip_history_gossip: u64,
    /// Lower bound of the gossip mesh degree.
    pub mesh_n_low: u64,
    /// Target gossip mesh degree.
    pub mesh_n: u64,
    /// Upper bound of the gossip mesh degree.
    pub mesh_n_high: u64,
    /// Largest gossip frame accepted, bytes.
    pub max_transmit_bytes: u64,
    /// Whether gossip validation is permissive rather than strict.
    pub permissive_validation: bool,
    /// Whether a node accepts gossip it originated itself.
    pub allow_self_origin: bool,
    /// Whether NAT probing is restricted to global addresses.
    pub only_global_ips: bool,
    /// Idle-connection timeout applied to the swarm, seconds.
    pub idle_connection_timeout_secs: u64,
    /// Seconds between periodic rendezvous discoveries.
    pub discover_interval_secs: u64,
}

impl NetConfig {
    /// The configuration the node is always built with.  The DHT republishes
    /// provider records every 60 seconds, so two advertisements of the same
    /// record are never more than 60 seconds apart while the node runs.
    pub fn standard() -> (c: NetConfig)
        ensures
            c.provider_republish_secs == 60,
            c.ping_interval_secs == 5,
            c.ping_timeout_secs == 5,
            c.gossip_heartbeat_secs == 10,
            c.gossip_history_length == 10,
            c.gossip_history_gossip == 10,
            c.mesh_n_low == 4,
            c.mesh_n == 6,
            c.mesh_n_high == 8,
            c.max_transmit_bytes == 10485760,
            c.permissive_validation,
            c.allow_self_origin,
            !c.only_global_ips,
            c.idle_connection_timeout_secs == 60,
            c.discover_interval_secs == 30,
    {
        NetConfig {
            provider_republish_secs: 60,
            ping_interval_secs: 5,
            ping_timeout_secs: 5,
            gossip_heartbeat_secs: 10,
            gossip_history_length: 10,
            gossip_history_gossip: 10,
            mesh_n_low: 4,
            mesh_n: 6,
            mesh_n_high: 8,
            max_transmit_bytes: 10485760,
            permissive_validation: true,
            allow_self_origin: true,
            only_global_ips: false,
            idle_connection_timeout_secs: 60,
            discover_interval_secs: 30,
        }
    }
}

/// The verifiable state of the composite behaviour: which gossip topics the
/// node is subscribed to, and whether its DHT runs in server mode.
pub struct BehaviourState {
    topics: Vec<String>,
    server: bool,
}

impl BehaviourState {
    /// No topic is held twice.
    pub closed spec fn wf(&self) -> bool {
        forall|i: int, j: int|
            0 <= i < j < self.topics@.len() ==> (#[trigger] self.topics@[i])@ != (
            #[trigger] self.topics@[j])@
    }

    /// Whether the node is subscribed to the topic `t`.
    pub closed spec fn subscribed(&self, t: Seq<char>) -> bool {
        exists|i: int| 0 <= i < self.topics@.len() && (#[trigger] self.topics@[i])@ == t
    }

    /// Whether the DHT is in server mode.
    pub closed spec fn server_mode(&self) -> bool {
        self.server
    }

    /// A fresh behaviour: no subscriptions, DHT not yet serving.
    pub fn new() -> (b: BehaviourState)
        ensures
            b.wf(),
            !b.server_mode(),
            forall|t: Seq<char>| !b.subscribed(t),
    {
        BehaviourState { topics: Vec::new(), server: false }
    }

    /// Whether the node is subscribed to `topic`.
    pub fn is_subscribed(&self, topic: &String) -> (r: bool)
        requires
            self.wf(),
        ensures
            r == self.subscribed(topic@),
    {
        let n = self.topics.len();
        let mut i: usize = 0;
        while i < n
            invariant
                0 <= i <= n,
                n == self.topics@.len(),
                forall|j: int| 0 <= j < i ==> (#[trigger] self.topics@[j])@ != topic@,
            decreases n - i,
        {
            if str_eq(&self.topics[i], topic) {
                proof {
                    assert((self.topics@[i as int])@ == topic@);
                }
                return true;
            }
            i = i + 1;
        }
        false
    }

    /// How many topics the node is subscribed to.
    pub fn topic_count(&self) -> (n: usize)
        ensures
            n == self.spec_topic_count(),
    {
        self.topics.len()
    }

    /// The number of subscribed topics.
    pub closed spec fn spec_topic_count(&self) -> nat {
        self.topics@.len()
    }

    /// Subscribe to `topic`.  Idempotent: subscribing twice holds the topic
    /// once.  Returns whether the subscription is new.
    pub fn subscribe(&mut self, topic: &String) -> (added: bool)
        requires
            old(self).wf(),
        ensures
            final(self).wf(),
            added == !old(self).subscribed(topic@),
            final(self).server_mode() == old(self).server_mode(),
            forall|t: Seq<char>|
                #[trigger] final(self).subscribed(t) <==> (old(self).subscribed(t) || t
                    == topic@),
    {
        if self.is_subscribed(topic) {
            return false;
        }
        let ghost pre = self.topics@;
        self.topics.push(topic.clone());
        proof {
            assert(self.topics@.drop_last() =~= pre);
            assert(self.topics@.last()@ == topic@);
            assert forall|t: Seq<char>| #[trigger]
                self.subscribed(t) <==> (old(self).subscribed(t) || t == topic@) by {
                if self.subscribed(t) {
                    let i = choose|i: int|
                        0 <= i < self.topics@.len() && (#[trigger] self.topics@[i])@ == t;
                    if i < pre.len() {
                        assert(pre[i]@ == t);
                    }
                }
                if old(self).subscribed(t) {
                    let i = choose|i: int| 0 <= i < pre.len() && (#[trigger] pre[i])@ == t;
                    assert(self.topics@[i]@ == t);
                }
                if t == topic@ {
                    assert(self.topics@[self.topics@.len() - 1]@ == t);
                }
            }
        }
        true
    }

    /// Unsubscribe from `topic`.  Returns whether the topic was held.
    pub fn unsubscribe(&mut self, topic: &String) -> (removed: bool)
        requires
            old(self).wf(),
        ensures
            final(self).wf(),
            removed == old(self).subscribed(topic@),
            final(self).server_mode() == old(self).server_mode(),
            forall|t: Seq<char>|
                #[trigger] final(self).subscribed(t) <==> (old(self).subscribed(t) && t
                    != topic@),
    {
        let n = self.topics.len();
        let mut i: usize = 0;
        while i < n
            invariant
                0 <= i <= n,
                n == self.topics@.len(),
                self.wf(),
                self == old(self),
                forall|j: int| 0 <= j < i ==> (#[trigger] self.topics@[j])@ != topic@,
            decreases n - i,
        {
            if str_eq(&self.topics[i], topic) {
                let ghost pre = self.topics@;
                let ghost idx = i as int;
                self.topics.remove(i);
                proof {
                    assert(pre[idx]@ == topic@);
                    assert forall|a: int, b: int|
                        0 <= a < b < self.topics@.len() implies (#[trigger] self.topics@[a])@ != (
                    #[trigger] self.topics@[b])@ by {
                        let a0 = if a < idx { a } else { a + 1 };
                        let b0 = if b < idx { b } else { b + 1 };
                        assert(self.topics@[a] == pre[a0] && self.topics@[b] == pre[b0]);
                    }
                    assert forall|t: Seq<char>| #[trigger]
                        self.subscribed(t) <==> (old(self).subscribed(t) && t != topic@) by {
                        if self.subscribed(t) {
                            let j = choose|j: int|
                                0 <= j < self.topics@.len() && (#[trigger] self.topics@[j])@ == t;
                            let j0 = if j < idx { j } else { j + 1 };
                            assert(pre[j0]@ == t);
                            assert(j0 != idx);
                        }
                        if old(self).subscribed(t) && t != topic@ {
                            let j = choose|j: int| 0 <= j < pre.len() && (#[trigger] pre[j])@ == t;
                            let j0 = if j < idx { j } else { j - 1 };
                            assert(j != idx);
                            assert(self.topics@[j0]@ == t);
                        }
                    }
                }
                return true;
            }
            i = i + 1;
        }
        false
    }

    /// Bring the node up: switch the DHT to server mode and subscribe to the
    /// two bootstrap topics.  Topics already held stay held.
    pub fn bootstrap(&mut self)
        requires
            old(self).wf(),
        ensures
            final(self).wf(),
            final(self).server_mode(),
            forall|t: Seq<char>|
                #[trigger] final(self).subscribed(t) <==> (old(self).subscribed(t) || t
                    == "everyone"@ || t == "capabilities"@),
    {
        self.server = true;
        let everyone = topic_everyone().to_owned();
        let capabilities = topic_capabilities().to_owned();
        self.subscribe(&everyone);
        self.subscribe(&capabilities);
    }

    /// Wind the node down: take the DHT out of server mode and drop the two
    /// bootstrap topics.
    pub fn shutdown(&mut self)
        requires
            old(self).wf(),
        ensures
            final(self).wf(),
            !final(self).server_mode(),
            forall|t: Seq<char>|
                #[trigger] final(self).subscribed(t) <==> (old(self).subscribed(t) && t
                    != "everyone"@ && t != "capabilities"@),
    {
        self.server = false;
        let ghost s0 = *self;
        let everyone = topic_everyone().to_owned();
        let capabilities = topic_capabilities().to_owned();
        self.unsubscribe(&everyone);
        let ghost mid = *self;
        self.unsubscribe(&capabilities);
        proof {
            assert forall|t: Seq<char>| #[trigger]
                self.subscribed(t) <==> (old(self).subscribed(t) && t != "everyone"@ && t
                    != "capabilities"@) by {
                assert(self.subscribed(t) <==> (mid.subscribed(t) && t != capabilities@));
                assert(mid.subscribed(t) <==> (s0.subscribed(t) && t != everyone@));
                assert(everyone@ == "everyone"@ && capabilities@ == "capabilities"@);
                assert(s0.topics@ == old(self).topics@);
                if s0.subscribed(t) {
                    let i = choose|i: int|
                        0 <= i < s0.topics@.len() && (#[trigger] s0.topics@[i])@ == t;
                    assert((old(self).topics@[i])@ == t);
                    assert(old(self).subscribed(t));
                }
                if old(self).subscribed(t) {
                    let i = choose|i: int|
                        0 <= i < old(self).topics@.len() && (#[trigger] old(self).topics@[i])@
                            == t;
                    assert((s0.topics@[i])@ == t);
                    assert(s0.subscribed(t));
                }
            }
        }
    }
}

/// The behaviour state a fresh node is constructed with: bootstrapped, then
/// subscribed to each additional topic.  The node ends up subscribed to
/// exactly the two bootstrap topics and the additional ones.
pub fn bootstrapped_behaviour(additional_topics: &Vec<String>) -> (b: BehaviourState)
    ensures
        b.wf(),
        b.server_mode(),
        forall|t: Seq<char>|
            #[trigger] b.subscribed(t) <==> (t == "everyone"@ || t == "capabilities"@ || exists|
                i: int,
            | 0 <= i < additional_topics@.len() && (#[trigger] additional_topics@[i])@ == t),
{
    let mut b = BehaviourState::new();
    b.bootstrap();
    let n = additional_topics.len();
    let mut i: usize = 0;
    while i < n
        invariant
            0 <= i <= n,
            n == additional_topics@.len(),
            b.wf(),
            b.server_mode(),
            forall|t: Seq<char>|
                #[trigger] b.subscribed(t) <==> (t == "everyone"@ || t == "capabilities"@ || exists|
                    j: int,
                | 0 <= j < i && (#[trigger] additional_topics@[j])@ == t),
        decreases n - i,
    {
        b.subscribe(&additional_topics[i]);
        proof {
            assert forall|t: Seq<char>| #[trigger]
                b.subscribed(t) <==> (t == "everyone"@ || t == "capabilities"@ || exists|j: int|
                    0 <= j < i + 1 && (#[trigger] additional_topics@[j])@ == t) by {
                if b.subscribed(t) && t != "everyone"@ && t != "capabilities"@ {
                    if t == additional_topics@[i as int]@ {
                        assert(0 <= i < i + 1 && additional_topics@[i as int]@ == t);
                    }
                }
                if exists|j: int| 0 <= j < i + 1 && (#[trigger] additional_topics@[j])@ == t {
                    let j = choose|j: int|
                        0 <= j < i + 1 && (#[trigger] additional_topics@[j])@ == t;
                    if j == i {
                        assert(t == additional_topics@[i as int]@);
                    }
                }
            }
        }
        i = i + 1;
    }
    b
}

} // verus!
