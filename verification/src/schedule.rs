//! What is sent to whom, and to whom a connection is opened for it: the
//! commands that enter the network task, block and fragment propagation,
//! and gossip.

use crate::config::{Configuration, TrustedPeer};
use crate::peers::{any_connected, deliveries_to, first_connected, info_of, outbound_of, reachable, out_of_reach, Delivery, Error, Outbound, PeerInfo};
use crate::state::GlobalState;
use crate::types::{ConnectOptions, Gossip, HeaderHash, Node, NodeId, PropagateMsg};
use vstd::prelude::*;

verus! {

/// What peers are interested in.
#[derive(Clone, Copy, Debug, PartialEq, Eq)]
pub enum Topic {
    Blocks,
    Messages,
}

/// Which peers to ask the topology for.
#[derive(Clone, Copy, Debug, PartialEq, Eq)]
pub enum Selection {
    Any,
    Topic(Topic),
}

/// A command from the rest of the node.
#[derive(Clone, Debug, PartialEq, Eq)]
pub enum NetworkMsg {
    Propagate(PropagateMsg),
    GetBlocks(Vec<HeaderHash>),
    GetNextBlock(NodeId, HeaderHash),
    PullHeaders { node_id: NodeId, from: Vec<HeaderHash>, to: HeaderHash },
    PeerInfo,
}

/// What a command led to.
#[derive(Debug, PartialEq, Eq)]
pub enum InputAction {
    /// Ask the topology for the peers of the selection, and propagate the
    /// item to them.
    Propagate { selection: Selection, msg: PropagateMsg },
    /// The request was queued for a peer, or no peer could take it.
    Requested(Result<(), Error>),
    /// The answer to a request for the peers' state.
    PeerInfo(Vec<PeerInfo>),
}

/// A connection to open, and what it carries.
#[derive(Clone, Debug, PartialEq, Eq)]
pub struct ConnectRequest {
    pub node: Node,
    pub options: ConnectOptions,
}

/// The topic under which an item is propagated.
pub open spec fn topic_of(msg: PropagateMsg) -> Topic {
    match msg {
        PropagateMsg::Block(_) => Topic::Blocks,
        PropagateMsg::Fragment(_) => Topic::Messages,
    }
}

/// The options of a connection that is opened to deliver `msg`.
pub open spec fn options_carrying(msg: PropagateMsg) -> ConnectOptions {
    match msg {
        PropagateMsg::Block(h) => ConnectOptions {
            pending_block_announcement: Some(h),
            pending_fragment: None,
            pending_gossip: None,
            evict_clients: 0,
        },
        PropagateMsg::Fragment(f) => ConnectOptions {
            pending_block_announcement: None,
            pending_fragment: Some(f),
            pending_gossip: None,
            evict_clients: 0,
        },
    }
}

/// The first `limit` nodes of `nodes`, or all of them if they are fewer.
pub open spec fn truncated(nodes: Seq<Node>, limit: usize) -> Seq<Node> {
    if nodes.len() > limit {
        nodes.take(limit as int)
    } else {
        nodes
    }
}

/// One request per node, in their order, each with the same options.
pub open spec fn requests_for(nodes: Seq<Node>, options: ConnectOptions) -> Seq<ConnectRequest> {
    Seq::new(nodes.len(), |i: int| ConnectRequest { node: nodes[i], options })
}

/// The options carry a gossip about `node` alone, and nothing else.
pub open spec fn announces(options: ConnectOptions, node: Node) -> bool {
    &&& options.pending_block_announcement is None
    &&& options.pending_fragment is None
    &&& options.evict_clients == 0
    &&& options.pending_gossip matches Some(g) && g.nodes@ == seq![node]
}

/// A trusted peer as a node to gossip about.
pub open spec fn node_of(peer: TrustedPeer) -> Node {
    Node { id: peer.id, address: peer.address }
}

/// The topic under which an item is propagated.
pub fn topic(msg: &PropagateMsg) -> (r: Topic)
    ensures
        r == topic_of(*msg),
{
    match msg {
        PropagateMsg::Block(_) => Topic::Blocks,
        PropagateMsg::Fragment(_) => Topic::Messages,
    }
}

/// The options of a connection that is opened to deliver `msg`.
pub fn pending_options(msg: &PropagateMsg) -> (r: ConnectOptions)
    ensures
        r == options_carrying(*msg),
{
    match msg {
        PropagateMsg::Block(h) => ConnectOptions {
            pending_block_announcement: Some(*h),
            pending_fragment: None,
            pending_gossip: None,
            evict_clients: 0,
        },
        PropagateMsg::Fragment(f) => ConnectOptions {
            pending_block_announcement: None,
            pending_fragment: Some(*f),
            pending_gossip: None,
            evict_clients: 0,
        },
    }
}

/// Takes one command. A request for blocks or headers is queued for a peer
/// or fails; a request for the peers' state is answered; for an item to
/// propagate, the peers of its topic are to be asked of the topology.
pub fn handle_network_input(msg: NetworkMsg, state: &mut GlobalState) -> (r: InputAction)
    requires
        old(state).wf(),
    ensures
        final(state).wf(),
        final(state).config == old(state).config,
        final(state).block0_hash == old(state).block0_hash,
        final(state).clients() == old(state).clients(),
        final(state).peers.limit() == old(state).peers.limit(),
        final(state).peers.entries() == old(state).peers.entries(),
        final(state).peers.dropped() == old(state).peers.dropped(),
        match msg {
            NetworkMsg::Propagate(m) => {
                &&& r == InputAction::Propagate { selection: Selection::Topic(topic_of(m)), msg: m }
                &&& final(state).peers.queued() == old(state).peers.queued()
            },
            NetworkMsg::GetBlocks(ids) => {
                if any_connected(old(state).peers.entries()) {
                    &&& r matches InputAction::Requested(res) && res is Ok
                    &&& final(state).peers.queued() == old(state).peers.queued().push(
                        Delivery { to: first_connected(old(state).peers.entries()), msg: Outbound::FetchBlocks(ids) },
                    )
                } else {
                    &&& r == InputAction::Requested(Err(Error::NoRoute))
                    &&& final(state).peers.queued() == old(state).peers.queued()
                }
            },
            NetworkMsg::GetNextBlock(node_id, id) => {
                if old(state).peers.is_connected(node_id) {
                    &&& r matches InputAction::Requested(res) && res is Ok
                    &&& final(state).peers.queued().len() == old(state).peers.queued().len() + 1
                    &&& final(state).peers.queued().drop_last() == old(state).peers.queued()
                    &&& final(state).peers.queued().last().to == node_id
                    &&& final(state).peers.queued().last().msg matches Outbound::SolicitBlocks(ids) && ids@ == seq![id]
                } else {
                    &&& r == InputAction::Requested(Err(Error::PeerUnknown(node_id)))
                    &&& final(state).peers.queued() == old(state).peers.queued()
                }
            },
            NetworkMsg::PullHeaders { node_id, from, to } => {
                if old(state).peers.is_connected(node_id) {
                    &&& r matches InputAction::Requested(res) && res is Ok
                    &&& final(state).peers.queued() == old(state).peers.queued().push(
                        Delivery { to: node_id, msg: Outbound::PullHeaders { from, to } },
                    )
                } else {
                    &&& r == InputAction::Requested(Err(Error::PeerUnknown(node_id)))
                    &&& final(state).peers.queued() == old(state).peers.queued()
                }
            },
            NetworkMsg::PeerInfo => {
                &&& final(state).peers.queued() == old(state).peers.queued()
                &&& r matches InputAction::PeerInfo(infos) && infos@.len() == old(state).peers.entries().len()
                    && forall|i: int|
                    0 <= i < infos@.len() ==> #[trigger] infos@[i] == info_of(old(state).peers.entries()[i])
            },
        },
{
    match msg {
        NetworkMsg::Propagate(m) => {
            let t = topic(&m);
            InputAction::Propagate { selection: Selection::Topic(t), msg: m }
        },
        NetworkMsg::GetBlocks(ids) => InputAction::Requested(state.peers.fetch_blocks(ids)),
        NetworkMsg::GetNextBlock(node_id, id) => {
            let mut ids: Vec<HeaderHash> = Vec::new();
            ids.push(id);
            let res = state.peers.solicit_blocks(node_id, ids);
            proof {
                if res is Ok {
                    let q0 = old(state).peers.queued();
                    let d = Delivery { to: node_id, msg: Outbound::SolicitBlocks(ids) };
                    assert(q0.push(d).drop_last() =~= q0);
                }
            }
            InputAction::Requested(res)
        },
        NetworkMsg::PullHeaders { node_id, from, to } => InputAction::Requested(
            state.peers.pull_headers(node_id, from, to),
        ),
        NetworkMsg::PeerInfo => InputAction::PeerInfo(state.peers.infos()),
    }
}

/// Propagates an item to the peers that the topology selected for it. It is
/// queued for each of them that has a live connection. For the others, no
/// more of them than client connections are allowed, a connection is
/// requested that carries the item.
pub fn handle_propagation_msg(msg: PropagateMsg, view_peers: &Vec<Node>, state: &mut GlobalState) -> (plan: Vec<ConnectRequest>)
    requires
        old(state).wf(),
    ensures
        final(state).wf(),
        final(state).config == old(state).config,
        final(state).block0_hash == old(state).block0_hash,
        final(state).clients() == old(state).clients(),
        final(state).peers.limit() == old(state).peers.limit(),
        final(state).peers.entries() == old(state).peers.entries(),
        final(state).peers.dropped() == old(state).peers.dropped(),
        final(state).peers.queued() == old(state).peers.queued() + deliveries_to(
            reachable(old(state).peers.entries(), view_peers@),
            outbound_of(msg),
        ),
        plan@ == requests_for(
            truncated(
                out_of_reach(old(state).peers.entries(), view_peers@),
                old(state).config.max_client_connections,
            ),
            options_carrying(msg),
        ),
        plan@.len() <= old(state).config.max_client_connections,
{
    let res = match msg {
        PropagateMsg::Block(header) => state.peers.propagate_block(view_peers, header),
        PropagateMsg::Fragment(fragment) => state.peers.propagate_fragment(view_peers, fragment),
    };
    let mut plan: Vec<ConnectRequest> = Vec::new();
    match res {
        Ok(()) => {
            assert(plan@ =~= requests_for(
                truncated(
                    out_of_reach(old(state).peers.entries(), view_peers@),
                    old(state).config.max_client_connections,
                ),
                options_carrying(msg),
            ));
        },
        Err(unreached_nodes) => {
            let mut unreached_nodes = unreached_nodes;
            unreached_nodes.truncate(state.config.max_client_connections);
            let mut i: usize = 0;
            while i < unreached_nodes.len()
                invariant
                    i <= unreached_nodes@.len(),
                    plan@ == requests_for(unreached_nodes@.take(i as int), options_carrying(msg)),
                decreases unreached_nodes@.len() - i,
            {
                let options = pending_options(&msg);
                plan.push(ConnectRequest { node: unreached_nodes[i], options });
                assert(plan@ =~= requests_for(unreached_nodes@.take(i as int + 1), options_carrying(msg)));
                i += 1;
            }
            assert(unreached_nodes@.take(i as int) =~= unreached_nodes@);
        },
    }
    plan
}

/// The gossips about the trusted peers: with them the topology starts out,
/// so that the node gossips with them at least at the beginning.
pub fn trusted_peer_gossip(config: &Configuration) -> (r: Gossip)
    ensures
        r.nodes@.len() == config.trusted_peers@.len(),
        forall|i: int| 0 <= i < r.nodes@.len() ==> #[trigger] r.nodes@[i] == node_of(config.trusted_peers@[i]),
{
    let mut nodes: Vec<Node> = Vec::new();
    let mut i: usize = 0;
    while i < config.trusted_peers.len()
        invariant
            i <= config.trusted_peers@.len(),
            nodes@.len() == i,
            forall|k: int| 0 <= k < i ==> #[trigger] nodes@[k] == node_of(config.trusted_peers@[k]),
        decreases config.trusted_peers@.len() - i,
    {
        let tp = config.trusted_peers[i];
        nodes.push(Node { id: tp.id, address: tp.address });
        i += 1;
    }
    Gossip { nodes }
}

/// The connections to open when the node starts: one to each peer of the
/// topology's view, each carrying a gossip in which the node announces
/// itself.
pub fn start_gossiping(self_node: Node, view_peers: &Vec<Node>) -> (plan: Vec<ConnectRequest>)
    ensures
        plan@.len() == view_peers@.len(),
        forall|i: int|
            0 <= i < plan@.len() ==> (#[trigger] plan@[i]).node == view_peers@[i] && announces(
                plan@[i].options,
                self_node,
            ),
{
    let mut plan: Vec<ConnectRequest> = Vec::new();
    let mut i: usize = 0;
    while i < view_peers.len()
        invariant
            i <= view_peers@.len(),
            plan@.len() == i,
            forall|k: int|
                0 <= k < i ==> (#[trigger] plan@[k]).node == view_peers@[k] && announces(
                    plan@[k].options,
                    self_node,
                ),
        decreases view_peers@.len() - i,
    {
        let mut nodes: Vec<Node> = Vec::new();
        nodes.push(self_node);
        let options = ConnectOptions {
            pending_block_announcement: None,
            pending_fragment: None,
            pending_gossip: Some(Gossip { nodes }),
            evict_clients: 0,
        };
        plan.push(ConnectRequest { node: view_peers[i], options });
        i += 1;
    }
    plan
}

/// The peers to gossip with in one round: those of the topology's view, but
/// no more of them than client connections are allowed.
pub fn send_gossip(state: &GlobalState, view_peers: Vec<Node>) -> (targets: Vec<Node>)
    ensures
        targets@ == truncated(view_peers@, state.config.max_client_connections),
        targets@.len() <= state.config.max_client_connections,
        targets@.len() <= view_peers@.len(),
{
    let mut peers = view_peers;
    peers.truncate(state.config.max_client_connections);
    peers
}

/// Sends the gossip that the topology made for `node`. Where the node has
/// no live connection, the gossip is not lost: a connection is requested
/// that carries it.
pub fn gossip_to(state: &mut GlobalState, node: Node, gossip: Gossip) -> (r: Option<ConnectRequest>)
    requires
        old(state).wf(),
    ensures
        final(state).wf(),
        final(state).config == old(state).config,
        final(state).block0_hash == old(state).block0_hash,
        final(state).clients() == old(state).clients(),
        final(state).peers.limit() == old(state).peers.limit(),
        final(state).peers.entries() == old(state).peers.entries(),
        final(state).peers.dropped() == old(state).peers.dropped(),
        if old(state).peers.is_connected(node.id) {
            &&& r is None
            &&& final(state).peers.queued() == old(state).peers.queued().push(
                Delivery { to: node.id, msg: Outbound::Gossip(gossip) },
            )
        } else {
            &&& r == Some(
                ConnectRequest {
                    node,
                    options: ConnectOptions {
                        pending_block_announcement: None,
                        pending_fragment: None,
                        pending_gossip: Some(gossip),
                        evict_clients: 0,
                    },
                },
            )
            &&& final(state).peers.queued() == old(state).peers.queued()
        },
{
    match state.peers.propagate_gossip_to(node.id, gossip) {
        Ok(()) => None,
        Err(gossip) => {
            let options = ConnectOptions {
                pending_block_announcement: None,
                pending_fragment: None,
                pending_gossip: Some(gossip),
                evict_clients: 0,
            };
            Some(ConnectRequest { node, options })
        },
    }
}

} // verus!
