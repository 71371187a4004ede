//! The values of the network configuration.

use crate::types::{Address, NodeId};
use vstd::prelude::*;

verus! {

/// The protocol spoken with a peer.
#[derive(Clone, Copy, Debug, PartialEq, Eq)]
pub enum Protocol {
    Ntt,
    Grpc,
}

/// A peer the node trusts from the start.
#[derive(Clone, Copy, Debug, PartialEq, Eq)]
pub struct TrustedPeer {
    pub id: NodeId,
    /// The socket address, where the configured address resolves to one.
    pub address: Option<Address>,
}

/// A peer to dial: where, how, and how long to wait for it.
#[derive(Clone, Copy, Debug, PartialEq, Eq)]
pub struct Peer {
    pub connection: Address,
    pub protocol: Protocol,
    /// Seconds to wait before the connection counts as failed.
    pub timeout: u64,
}

impl Peer {
    pub fn new(connection: Address, protocol: Protocol, timeout: u64) -> (r: Peer)
        ensures
            r == (Peer { connection, protocol, timeout }),
    {
        Peer { connection, protocol, timeout }
    }
}

/// The network configuration. It does not change after it was loaded.
#[derive(Clone, Debug, PartialEq, Eq)]
pub struct Configuration {
    /// The identity of this node.
    pub node_id: NodeId,
    /// Where to listen for inbound connections, if at all.
    pub listen_address: Option<Address>,
    pub protocol: Protocol,
    pub trusted_peers: Vec<TrustedPeer>,
    /// The most entries the peer registry may hold.
    pub max_connections: usize,
    /// The most client connections held open at a time.
    pub max_client_connections: usize,
    /// Seconds to wait for a peer.
    pub timeout: u64,
    /// Seconds between two rounds of gossip.
    pub gossip_interval: u64,
    /// Seconds between two resets of the topology, if it is reset at all.
    pub topology_force_reset_interval: Option<u64>,
}

} // verus!
