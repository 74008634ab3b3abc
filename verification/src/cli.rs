//! The command-line surface, as plain values.
//!
//! Argument parsing itself happens outside the library; what arrives here is
//! the parsed invocation.  The one decision worth keeping close is how dial
//! targets are read off the peer addresses: every peer address must end in a
//! peer identity.

use crate::types::Address;
use vstd::prelude::*;

verus! {

/// A parsed invocation of the node.
#[derive(Debug, Clone, PartialEq, Eq)]
pub struct Cli {
    /// Deterministic identity seed, for local testing.
    pub secret_key_seed: Option<u8>,
    /// Peers to dial at startup; each address must carry a peer identity.
    pub peer: Vec<Address>,
    /// Addresses to listen on.
    pub listen_address: Vec<Address>,
    /// What the node is asked to do.
    pub command: Commands,
}

/// The node's subcommands.
#[derive(Debug, Clone, PartialEq, Eq)]
pub enum Commands {
    /// Run a plain node that only helps bootstrap the network.
    Bootstrap {},
    /// Provide the named agent to the network.
    Provide { name: String },
    /// Seek the named agent in the network and send it a message.
    Llm { name: String, message: String },
    /// Publish a message on a gossip topic.
    Gossip { topic: String, message: String },
}

/// Read the dial targets off the peer addresses: each address must end in a
/// peer identity.  Returns nothing when any address lacks one.
pub fn dial_targets(addrs: &Vec<Address>) -> (r: Option<Vec<(u64, Address)>>)
    ensures
        match r {
            Some(targets) => (forall|i: int|
                0 <= i < addrs@.len() ==> (#[trigger] addrs@[i]).peer is Some) && targets@.len()
                == addrs@.len() && forall|i: int|
                0 <= i < targets@.len() ==> #[trigger] targets@[i] == (
                addrs@[i].peer->Some_0,
                addrs@[i],
            ),
            None => exists|i: int| 0 <= i < addrs@.len() && (#[trigger] addrs@[i]).peer is None,
        },
{
    let n = addrs.len();
    let mut targets: Vec<(u64, Address)> = Vec::new();
    let mut i: usize = 0;
    while i < n
        invariant
            0 <= i <= n,
            n == addrs@.len(),
            targets@.len() == i,
            forall|j: int| 0 <= j < i ==> (#[trigger] addrs@[j]).peer is Some,
            forall|j: int|
                0 <= j < i ==> #[trigger] targets@[j] == (addrs@[j].peer->Some_0, addrs@[j]),
        decreases n - i,
    {
        let addr = &addrs[i];
        match addr.peer {
            Some(p) => {
                targets.push((p, addr.clone()));
            },
            None => {
                return None;
            },
        }
        i = i + 1;
    }
    Some(targets)
}

} // verus!
