//! Plain values exchanged between the networking components.

use vstd::prelude::*;

verus! {

/// Unique network identity of a node.
pub type NodeId = u64;

/// Token of one connection attempt, chosen by the driver that dials. It names
/// the attempt when it has to be canceled or its channel closed.
pub type ConnectHandle = u64;

/// Identifier of a block or of a fragment.
#[derive(Clone, Copy, Debug, PartialEq, Eq)]
pub struct HeaderHash {
    pub bytes: [u8; 32],
}

/// Socket address of a peer: the IP address as a number, and the port.
#[derive(Clone, Copy, Debug, PartialEq, Eq)]
pub struct Address {
    pub ip: u128,
    pub port: u16,
    pub v6: bool,
}

/// A node as the topology hands it out: its identity and, where it is known,
/// the address it can be dialed at.
#[derive(Clone, Copy, Debug, PartialEq, Eq)]
pub struct Node {
    pub id: NodeId,
    pub address: Option<Address>,
}

/// A block header that is announced to peers.
#[derive(Clone, Copy, Debug, PartialEq, Eq)]
pub struct Header {
    pub hash: HeaderHash,
}

/// A pending transaction unit that is propagated ahead of block inclusion.
#[derive(Clone, Copy, Debug, PartialEq, Eq)]
pub struct Fragment {
    pub hash: HeaderHash,
}

/// Node advertisements exchanged to maintain topology membership.
#[derive(Clone, Debug, PartialEq, Eq)]
pub struct Gossip {
    pub nodes: Vec<Node>,
}

/// An item whose dissemination to the network was asked for.
#[derive(Clone, Copy, Debug, PartialEq, Eq)]
pub enum PropagateMsg {
    Block(Header),
    Fragment(Fragment),
}

/// Why a strike is reported against a peer.
#[derive(Clone, Copy, Debug, PartialEq, Eq)]
pub enum StrikeReason {
    CannotConnect,
    InvalidPublicId,
}

/// What travels with a connection attempt: the items to push as soon as the
/// connection is usable, and how many client connections to evict for it.
#[derive(Clone, Debug, PartialEq, Eq)]
pub struct ConnectOptions {
    pub pending_block_announcement: Option<Header>,
    pub pending_fragment: Option<Fragment>,
    pub pending_gossip: Option<Gossip>,
    pub evict_clients: usize,
}

impl ConnectOptions {
    /// Options that carry nothing and evict nobody.
    pub open spec fn empty() -> ConnectOptions {
        ConnectOptions {
            pending_block_announcement: None,
            pending_fragment: None,
            pending_gossip: None,
            evict_clients: 0,
        }
    }
}

impl Default for ConnectOptions {
    fn default() -> (r: ConnectOptions)
        ensures
            r == ConnectOptions::empty(),
    {
        ConnectOptions {
            pending_block_announcement: None,
            pending_fragment: None,
            pending_gossip: None,
            evict_clients: 0,
        }
    }
}

} // verus!
