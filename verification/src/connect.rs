//! The life of one outbound connection: from the decision to connect to a
//! node, to a connection that is counted or a failure that is reported.

use crate::config::{Peer, Protocol};
use crate::peers::{connected_in, handle_of, has_entry, held_by, lemma_position, making_room, pending_deliveries, position, refuses, released, without, Error, PeerEntry, PeerState};
use crate::state::{count_after, ClientEvent, ConnectionState, GlobalState};
use crate::types::{ConnectHandle, ConnectOptions, Node, NodeId, StrikeReason};
use vstd::prelude::*;

verus! {

/// What to do about a node that was selected for a connection.
#[derive(Clone, Copy, Debug, PartialEq, Eq)]
pub enum ConnectPlan {
    /// The node has no address and cannot be dialed: nothing is done.
    Ignored,
    /// The registry did not admit the attempt: the node is left alone.
    Refused(Error),
    /// The attempt is registered: dial the peer.
    Dial(ConnectionState),
}

/// Why a dialed connection did not come about.
#[derive(Clone, Copy, Debug, PartialEq, Eq)]
pub enum ConnectError {
    /// The transport refused the connection or did not reach the peer.
    Transport,
    /// The transport connected, but the protocol could not be negotiated.
    Negotiation,
    /// The attempt was canceled, as when a newer one supersedes it.
    Canceled,
    /// The peer serves another chain.
    Block0Mismatch,
    /// The peer broke the protocol in some other way.
    Protocol,
}

/// What was done about a failed attempt.
#[derive(Clone, Copy, Debug, PartialEq, Eq)]
pub struct FailureReport {
    /// The failure is an expected one and costs the peer nothing.
    pub benign: bool,
    /// The strike to report against the node, if any.
    pub strike: Option<StrikeReason>,
    /// The registry held an entry for the node, which is gone now.
    pub removed: bool,
}

/// How a connection that the transport established was taken up.
#[derive(Clone, Copy, Debug, PartialEq, Eq)]
pub enum ConnectOutcome {
    /// The connection is counted and registered as live.
    Established,
    /// The remote is not the node that was dialed: report the strike.
    Rejected(StrikeReason),
    /// The registry holds no pending attempt for the node any more: the
    /// connection counts as canceled.
    Superseded,
}

/// Transport and negotiation failures and cancellation are benign.
pub open spec fn benign(error: ConnectError) -> bool {
    error is Transport || error is Negotiation || error is Canceled
}

/// The options as they are registered with an attempt made in `state`: they
/// say how many clients to evict for it.
pub open spec fn with_eviction(state: GlobalState, options: ConnectOptions) -> ConnectOptions {
    ConnectOptions {
        pending_block_announcement: options.pending_block_announcement,
        pending_fragment: options.pending_fragment,
        pending_gossip: options.pending_gossip,
        evict_clients: state.clients_to_bump() as usize,
    }
}

/// Whether the failure is an expected one.
pub fn is_benign(error: ConnectError) -> (r: bool)
    ensures
        r == benign(error),
{
    match error {
        ConnectError::Transport => true,
        ConnectError::Negotiation => true,
        ConnectError::Canceled => true,
        ConnectError::Block0Mismatch => false,
        ConnectError::Protocol => false,
    }
}

/// Decides to connect to `node` and registers the attempt under `handle`.
/// A node without an address is ignored. The options are completed by the
/// number of clients to evict. The topology never selects the node itself.
pub fn connect_and_propagate(node: Node, state: &mut GlobalState, handle: ConnectHandle, options: ConnectOptions) -> (plan: ConnectPlan)
    requires
        old(state).wf(),
        node.id != old(state).config.node_id,
    ensures
        final(state).wf(),
        final(state).config == old(state).config,
        final(state).block0_hash == old(state).block0_hash,
        final(state).clients() == old(state).clients(),
        final(state).peers.limit() == old(state).peers.limit(),
        final(state).peers.queued() == old(state).peers.queued(),
        match node.address {
            None => plan == ConnectPlan::Ignored && final(state).peers.same_as(old(state).peers),
            Some(addr) => {
                let registered = with_eviction(*old(state), options);
                if refuses(
                    old(state).peers.entries(),
                    old(state).peers.limit(),
                    node.id,
                    registered.evict_clients,
                ) {
                    plan == ConnectPlan::Refused(Error::AtCapacity) && final(state).peers.same_as(old(state).peers)
                } else {
                    &&& plan == ConnectPlan::Dial(
                        ConnectionState { timeout: old(state).config.timeout, connection: addr },
                    )
                    &&& final(state).peers.entries() == making_room(
                        old(state).peers.entries(),
                        old(state).peers.limit(),
                        node.id,
                    ).push(PeerEntry { id: node.id, handle, state: PeerState::Connecting(registered) })
                    &&& final(state).peers.dropped() == old(state).peers.dropped() + released(
                        old(state).peers.entries(),
                        old(state).peers.limit(),
                        node.id,
                    )
                }
            },
        },
{
    let addr = match node.address {
        Some(addr) => addr,
        None => {
            return ConnectPlan::Ignored;
        },
    };
    let registered = ConnectOptions {
        pending_block_announcement: options.pending_block_announcement,
        pending_fragment: options.pending_fragment,
        pending_gossip: options.pending_gossip,
        evict_clients: state.num_clients_to_bump(),
    };
    let peer = Peer::new(addr, Protocol::Grpc, state.config.timeout);
    let conn_state = ConnectionState::new(&peer);
    match state.peers.add_connecting(node.id, handle, registered) {
        Ok(()) => ConnectPlan::Dial(conn_state),
        Err(e) => ConnectPlan::Refused(e),
    }
}

/// The registry holds the node's entry under `handle`, and it is still
/// waiting for its connection.
pub open spec fn pending_under(s: Seq<PeerEntry>, node_id: NodeId, handle: ConnectHandle) -> bool {
    held_by(s, node_id, handle) && !connected_in(s, node_id)
}

/// The failure as it counts for the attempt made under `handle`: where the
/// registry no longer holds the node's entry under that handle, the attempt
/// was superseded or removed, and whatever came of it counts as canceled.
pub open spec fn effective(s: Seq<PeerEntry>, node_id: NodeId, handle: ConnectHandle, error: ConnectError) -> ConnectError {
    if held_by(s, node_id, handle) {
        error
    } else {
        ConnectError::Canceled
    }
}

/// The attempt to connect to `node_id` under `handle` failed with `error`.
/// A canceled attempt, and one whose entry the registry holds no longer,
/// changes nothing. Any other failure takes the node's entry out of the
/// registry, and one that is not benign earns the node a strike. The count
/// of clients stays as it is.
pub fn connect_failed(state: &mut GlobalState, node_id: NodeId, handle: ConnectHandle, error: ConnectError) -> (r: FailureReport)
    requires
        old(state).wf(),
    ensures
        final(state).wf(),
        final(state).config == old(state).config,
        final(state).block0_hash == old(state).block0_hash,
        final(state).clients() == old(state).clients(),
        final(state).peers.limit() == old(state).peers.limit(),
        final(state).peers.queued() == old(state).peers.queued(),
        ({
            let e = effective(old(state).peers.entries(), node_id, handle, error);
            &&& r.benign == benign(e)
            &&& r.strike == (if benign(e) {
                None
            } else {
                Some(StrikeReason::CannotConnect)
            })
            &&& r.removed == !(e is Canceled)
            &&& e is Canceled ==> final(state).peers.same_as(old(state).peers)
            &&& !(e is Canceled) ==> {
                &&& final(state).peers.entries() == without(old(state).peers.entries(), node_id)
                &&& final(state).peers.dropped() == old(state).peers.dropped().push(handle)
                &&& !has_entry(final(state).peers.entries(), node_id)
            }
        }),
{
    let current = state.peers.holds(node_id, handle);
    let e = if current {
        error
    } else {
        ConnectError::Canceled
    };
    let benign = is_benign(e);
    let canceled = match e {
        ConnectError::Canceled => true,
        _ => false,
    };
    let removed = if canceled {
        false
    } else {
        proof {
            let s = old(state).peers.entries();
            let w = choose|i: int| 0 <= i < s.len() && #[trigger] s[i].id == node_id && s[i].handle == handle;
            lemma_position(s, w);
        }
        state.peers.remove_peer(node_id)
    };
    let strike = if benign {
        None
    } else {
        Some(StrikeReason::CannotConnect)
    };
    FailureReport { benign, strike, removed }
}

/// The transport connected to the node dialed as `node_id` under `handle`,
/// and the remote says it is `remote_id`. Where the registry holds the
/// node's entry under that handle no longer, the connection counts as
/// canceled and nothing changes. Else, where the two identities differ, the
/// node earns a strike, its entry goes and nothing is counted; where they
/// agree, the entry becomes a live connection, what was pending for it is
/// queued, and the client is counted.
pub fn connect_succeeded(state: &mut GlobalState, node_id: NodeId, handle: ConnectHandle, remote_id: NodeId) -> (r: ConnectOutcome)
    requires
        old(state).wf(),
        old(state).clients() < usize::MAX,
    ensures
        final(state).wf(),
        final(state).config == old(state).config,
        final(state).block0_hash == old(state).block0_hash,
        final(state).peers.limit() == old(state).peers.limit(),
        !pending_under(old(state).peers.entries(), node_id, handle) ==> {
            &&& r == ConnectOutcome::Superseded
            &&& final(state).clients() == old(state).clients()
            &&& final(state).peers.same_as(old(state).peers)
        },
        pending_under(old(state).peers.entries(), node_id, handle) && remote_id != node_id ==> {
            &&& r == ConnectOutcome::Rejected(StrikeReason::InvalidPublicId)
            &&& final(state).clients() == old(state).clients()
            &&& final(state).peers.queued() == old(state).peers.queued()
            &&& final(state).peers.entries() == without(old(state).peers.entries(), node_id)
            &&& final(state).peers.dropped() == old(state).peers.dropped().push(handle)
            &&& !has_entry(final(state).peers.entries(), node_id)
        },
        pending_under(old(state).peers.entries(), node_id, handle) && remote_id == node_id ==> {
            let p = position(old(state).peers.entries(), node_id);
            let e = old(state).peers.entries()[p];
            &&& r == ConnectOutcome::Established
            &&& final(state).clients() == count_after(old(state).clients() as int, ClientEvent::Opened)
            &&& e.state is Connecting
            &&& final(state).peers.entries() == old(state).peers.entries().update(
                p,
                PeerEntry { id: node_id, handle, state: PeerState::Connected },
            )
            &&& final(state).peers.queued() == old(state).peers.queued() + pending_deliveries(
                node_id,
                e.state->Connecting_0,
            )
            &&& final(state).peers.dropped() == old(state).peers.dropped()
            &&& final(state).peers.is_connected(node_id)
        },
{
    let current = state.peers.holds(node_id, handle) && !state.peers.connected(node_id);
    if !current {
        return ConnectOutcome::Superseded;
    }
    proof {
        let s = old(state).peers.entries();
        let w = choose|i: int| 0 <= i < s.len() && #[trigger] s[i].id == node_id && s[i].handle == handle;
        lemma_position(s, w);
    }
    if remote_id != node_id {
        state.peers.remove_peer(node_id);
        ConnectOutcome::Rejected(StrikeReason::InvalidPublicId)
    } else {
        let established = state.peers.establish(node_id);
        assert(established);
        state.inc_client_count();
        ConnectOutcome::Established
    }
}

/// The channel of the connection that was established to `node_id` under
/// `handle` has terminated: the client is counted no longer, and the
/// node's entry goes if the registry still holds it under that handle.
/// Returns whether the entry went.
pub fn connection_closed(state: &mut GlobalState, node_id: NodeId, handle: ConnectHandle) -> (r: bool)
    requires
        old(state).wf(),
        old(state).clients() != 0,
    ensures
        final(state).wf(),
        final(state).config == old(state).config,
        final(state).block0_hash == old(state).block0_hash,
        final(state).clients() == count_after(old(state).clients() as int, ClientEvent::Closed),
        final(state).peers.limit() == old(state).peers.limit(),
        final(state).peers.queued() == old(state).peers.queued(),
        final(state).peers.dropped() == old(state).peers.dropped(),
        r == held_by(old(state).peers.entries(), node_id, handle),
        final(state).peers.entries() == (if r {
            without(old(state).peers.entries(), node_id)
        } else {
            old(state).peers.entries()
        }),
{
    state.dec_client_count();
    state.peers.release(node_id, handle)
}

/// Where a connection attempt stands.
#[derive(Clone, Copy, Debug, PartialEq, Eq)]
pub enum Phase {
    /// The node's address is looked up and the attempt registered.
    Resolving,
    /// The transport is connecting.
    Dialing,
    /// The transport is connected; the remote's identity is checked.
    Verifying,
    /// The connection is counted and held open.
    Established,
    /// The connection was established and has terminated.
    Closed,
    /// The attempt ended without a connection; the flag says whether the
    /// failure was benign.
    Failed(bool),
}

/// What moves a connection attempt on.
#[derive(Clone, Copy, Debug, PartialEq, Eq)]
pub enum Event {
    /// The attempt was planned.
    Planned(ConnectPlan),
    /// The transport connected.
    TransportConnected,
    /// The transport did not connect.
    TransportFailed(ConnectError),
    /// The remote's identity was checked.
    Verified(ConnectOutcome),
    /// The channel of the established connection terminated.
    ChannelClosed,
}

/// The phase that follows `phase` on `event`, if the event can occur there.
pub open spec fn next_phase(phase: Phase, event: Event) -> Option<Phase> {
    match (phase, event) {
        (Phase::Resolving, Event::Planned(ConnectPlan::Dial(_))) => Some(Phase::Dialing),
        (Phase::Resolving, Event::Planned(_)) => Some(Phase::Failed(true)),
        (Phase::Dialing, Event::TransportConnected) => Some(Phase::Verifying),
        (Phase::Dialing, Event::TransportFailed(e)) => Some(Phase::Failed(benign(e))),
        (Phase::Verifying, Event::Verified(ConnectOutcome::Established)) => Some(Phase::Established),
        (Phase::Verifying, Event::Verified(ConnectOutcome::Rejected(_))) => Some(Phase::Failed(false)),
        (Phase::Verifying, Event::Verified(ConnectOutcome::Superseded)) => Some(Phase::Failed(true)),
        (Phase::Established, Event::ChannelClosed) => Some(Phase::Closed),
        _ => None,
    }
}

/// Moves a connection attempt on by one event. A closed or failed attempt
/// goes nowhere.
pub fn advance(phase: Phase, event: Event) -> (r: Option<Phase>)
    ensures
        r == next_phase(phase, event),
        phase is Closed || phase is Failed ==> r is None,
{
    match phase {
        Phase::Resolving => match event {
            Event::Planned(plan) => match plan {
                ConnectPlan::Dial(_) => Some(Phase::Dialing),
                _ => Some(Phase::Failed(true)),
            },
            _ => None,
        },
        Phase::Dialing => match event {
            Event::TransportConnected => Some(Phase::Verifying),
            Event::TransportFailed(e) => Some(Phase::Failed(is_benign(e))),
            _ => None,
        },
        Phase::Verifying => match event {
            Event::Verified(outcome) => match outcome {
                ConnectOutcome::Established => Some(Phase::Established),
                ConnectOutcome::Rejected(_) => Some(Phase::Failed(false)),
                ConnectOutcome::Superseded => Some(Phase::Failed(true)),
            },
            _ => None,
        },
        Phase::Established => match event {
            Event::ChannelClosed => Some(Phase::Closed),
            _ => None,
        },
        Phase::Closed => None,
        Phase::Failed(_) => None,
    }
}

} // verus!
