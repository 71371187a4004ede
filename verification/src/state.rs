//! The state shared by all network tasks, and the count of client
//! connections in it.

use crate::config::{Configuration, Peer, Protocol};
use crate::peers::{Delivery, PeerEntry, Peers};
use crate::types::{Address, ConnectHandle, HeaderHash};
use vstd::prelude::*;

verus! {

/// What happens to a client connection.
#[derive(Clone, Copy, Debug, PartialEq, Eq)]
pub enum ClientEvent {
    /// A connection was fully established.
    Opened,
    /// An established connection terminated.
    Closed,
}

/// The count of client connections after one event.
pub open spec fn count_after(count: int, event: ClientEvent) -> int {
    match event {
        ClientEvent::Opened => count + 1,
        ClientEvent::Closed => count - 1,
    }
}

/// The count of client connections after the events, in their order.
pub open spec fn count_after_all(count: int, events: Seq<ClientEvent>) -> int
    decreases events.len(),
{
    if events.len() == 0 {
        count
    } else {
        count_after(count_after_all(count, events.drop_last()), events.last())
    }
}

/// No connection terminates while none is counted.
pub open spec fn never_underflows(count: int, events: Seq<ClientEvent>) -> bool {
    forall|k: int|
        0 <= k < events.len() && events[k] == ClientEvent::Closed ==> #[trigger] count_after_all(
            count,
            events.take(k),
        ) > 0
}

/// How often `event` stands in `events`.
pub open spec fn occurrences(events: Seq<ClientEvent>, event: ClientEvent) -> int
    decreases events.len(),
{
    if events.len() == 0 {
        0
    } else {
        occurrences(events.drop_last(), event) + if events.last() == event {
            1int
        } else {
            0int
        }
    }
}

/// The number of client connections to evict before one more is
/// established, with `count` held open and `limit` allowed.
pub open spec fn evict_count(count: int, limit: int) -> int {
    if count + 1 - limit > 0 {
        count + 1 - limit
    } else {
        0
    }
}

/// After any sequence of connections established and terminated, the count
/// is the starting count plus the number established minus the number
/// terminated; and where no connection terminated while none was counted,
/// the count is not negative.
pub proof fn lemma_count_is_net(count: int, events: Seq<ClientEvent>)
    requires
        count >= 0,
    ensures
        count_after_all(count, events) == count + occurrences(events, ClientEvent::Opened) - occurrences(
            events,
            ClientEvent::Closed,
        ),
        never_underflows(count, events) ==> count_after_all(count, events) >= 0,
    decreases events.len(),
{
    if events.len() > 0 {
        let init = events.drop_last();
        lemma_count_is_net(count, init);
        if never_underflows(count, events) {
            assert forall|k: int| 0 <= k < init.len() && init[k] == ClientEvent::Closed implies #[trigger] count_after_all(
                count,
                init.take(k),
            ) > 0 by {
                assert(init.take(k) =~= events.take(k));
                assert(events[k] == ClientEvent::Closed);
            }
            let last = events.len() - 1;
            assert(events.take(last) =~= init);
            if events.last() == ClientEvent::Closed {
                assert(events[last] == ClientEvent::Closed);
                assert(count_after_all(count, events.take(last)) > 0);
            }
        }
    }
}

/// Global state shared between all network tasks.
pub struct GlobalState {
    pub block0_hash: HeaderHash,
    pub config: Configuration,
    pub peers: Peers,
    /// The number of client connections held open.
    pub client_count: usize,
}

impl GlobalState {
    /// The number of client connections held open.
    pub open spec fn clients(self) -> nat {
        self.client_count as nat
    }

    /// The state's invariant: the registry is well formed and holds no more
    /// entries than the configuration allows.
    pub open spec fn wf(self) -> bool {
        &&& self.peers.wf()
        &&& self.peers.limit() == self.config.max_connections
    }

    /// The state differs from `other` in the client count at most.
    pub open spec fn same_network(self, other: GlobalState) -> bool {
        &&& self.block0_hash == other.block0_hash
        &&& self.config == other.config
        &&& self.peers.same_as(other.peers)
    }

    /// The network state of a node that has no connection yet.
    pub fn new(block0_hash: HeaderHash, config: Configuration) -> (r: GlobalState)
        ensures
            r.wf(),
            r.block0_hash == block0_hash,
            r.config == config,
            r.clients() == 0,
            r.peers.entries() == Seq::<PeerEntry>::empty(),
            r.peers.queued() == Seq::<Delivery>::empty(),
            r.peers.dropped() == Seq::<ConnectHandle>::empty(),
    {
        let peers = Peers::new(config.max_connections);
        GlobalState { block0_hash, config, peers, client_count: 0 }
    }

    /// The number of client connections held open.
    pub fn client_count(&self) -> (r: usize)
        ensures
            r == self.clients(),
    {
        self.client_count
    }

    /// Counts a connection that was fully established.
    pub fn inc_client_count(&mut self)
        requires
            old(self).clients() < usize::MAX,
        ensures
            final(self).clients() == count_after(old(self).clients() as int, ClientEvent::Opened),
            final(self).same_network(*old(self)),
    {
        self.client_count = self.client_count + 1;
    }

    /// Counts a connection as terminated. With no connection counted this
    /// must not be called: there is nothing it could take away.
    pub fn dec_client_count(&mut self)
        requires
            old(self).clients() != 0,
        ensures
            final(self).clients() == count_after(old(self).clients() as int, ClientEvent::Closed),
            final(self).same_network(*old(self)),
    {
        self.client_count = self.client_count - 1;
    }

    /// The number of client connections to evict before one more is
    /// established; the count plus one saturates at the machine's limit.
    pub open spec fn clients_to_bump(self) -> int {
        if self.clients() < usize::MAX {
            evict_count(self.clients() as int, self.config.max_client_connections as int)
        } else {
            usize::MAX - self.config.max_client_connections
        }
    }

    /// How many client connections to bump when a new one is about to be
    /// established.
    pub fn num_clients_to_bump(&self) -> (r: usize)
        ensures
            r == self.clients_to_bump(),
            self.clients() < usize::MAX ==> r == evict_count(
                self.clients() as int,
                self.config.max_client_connections as int,
            ),
            self.clients() == usize::MAX ==> r == usize::MAX - self.config.max_client_connections,
    {
        let count: usize = self.client_count.saturating_add(1);
        if count > self.config.max_client_connections {
            count - self.config.max_client_connections
        } else {
            0
        }
    }
}

/// What one connection attempt works with: how long to wait for the peer
/// and where the peer is.
#[derive(Clone, Copy, Debug, PartialEq, Eq)]
pub struct ConnectionState {
    /// Seconds to wait before the connection replies.
    pub timeout: u64,
    /// Where the peer is.
    pub connection: Address,
}

impl ConnectionState {
    pub fn new(peer: &Peer) -> (r: ConnectionState)
        ensures
            r == (ConnectionState { timeout: peer.timeout, connection: peer.connection }),
    {
        ConnectionState { timeout: peer.timeout, connection: peer.connection }
    }
}

/// What the network task is started with.
#[derive(Clone, Debug, PartialEq, Eq)]
pub struct TaskParams {
    pub config: Configuration,
    pub block0_hash: HeaderHash,
}

/// What runs beside the handling of commands once the task has started.
#[derive(Clone, Copy, Debug, PartialEq, Eq)]
pub struct StartPlan {
    /// Where to accept connections of other peers, if anywhere.
    pub listen: Option<Address>,
    /// Seconds between two rounds of gossip.
    pub gossip_interval: u64,
    /// Seconds between two resets of the topology, if it is reset at all.
    pub topology_force_reset_interval: Option<u64>,
}

/// Starts the network task: makes the state that its parts share, with no
/// peer and no client in it, and says what is to run on it. Listening is
/// done over gRPC only.
pub fn start(params: TaskParams) -> (r: (GlobalState, StartPlan))
    requires
        params.config.listen_address is Some ==> params.config.protocol == Protocol::Grpc,
    ensures
        r.0.wf(),
        r.0.block0_hash == params.block0_hash,
        r.0.config == params.config,
        r.0.clients() == 0,
        r.0.peers.entries() == Seq::<PeerEntry>::empty(),
        r.0.peers.queued() == Seq::<Delivery>::empty(),
        r.0.peers.dropped() == Seq::<ConnectHandle>::empty(),
        r.1 == (StartPlan {
            listen: params.config.listen_address,
            gossip_interval: params.config.gossip_interval,
            topology_force_reset_interval: params.config.topology_force_reset_interval,
        }),
{
    let plan = StartPlan {
        listen: params.config.listen_address,
        gossip_interval: params.config.gossip_interval,
        topology_force_reset_interval: params.config.topology_force_reset_interval,
    };
    let state = GlobalState::new(params.block0_hash, params.config);
    (state, plan)
}

} // verus!
