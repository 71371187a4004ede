use peer_network::peers::{Delivery, Error, Outbound, PeerInfo, Peers};
use peer_network::types::{Address, ConnectOptions, Fragment, Gossip, Header, HeaderHash, Node};

fn hash(b: u8) -> HeaderHash {
    HeaderHash { bytes: [b; 32] }
}

fn addr(port: u16) -> Address {
    Address { ip: 0x7f00_0001, port, v6: false }
}

fn node(id: u64) -> Node {
    Node { id, address: Some(addr(3000 + id as u16)) }
}

fn connected_peer(peers: &mut Peers, id: u64, handle: u64) {
    assert_eq!(peers.add_connecting(id, handle, ConnectOptions::default()), Ok(()));
    assert!(peers.establish(id));
}

#[test]
fn new_registry_is_empty() {
    let peers = Peers::new(4);
    assert_eq!(peers.capacity(), 4);
    assert_eq!(peers.len(), 0);
    assert!(peers.outbound().is_empty());
    assert!(peers.canceled().is_empty());
    assert!(peers.infos().is_empty());
}

#[test]
fn add_connecting_registers_a_pending_entry() {
    let mut peers = Peers::new(4);
    assert_eq!(peers.add_connecting(7, 100, ConnectOptions::default()), Ok(()));
    assert_eq!(peers.infos(), vec![PeerInfo { id: 7, connected: false }]);
    assert!(!peers.connected(7));
    assert!(peers.canceled().is_empty());
}

#[test]
fn repeated_add_connecting_keeps_one_entry_and_cancels_the_earlier() {
    let mut peers = Peers::new(4);
    assert_eq!(peers.add_connecting(7, 100, ConnectOptions::default()), Ok(()));
    assert_eq!(peers.add_connecting(7, 101, ConnectOptions::default()), Ok(()));
    assert_eq!(peers.add_connecting(7, 102, ConnectOptions::default()), Ok(()));
    assert_eq!(peers.len(), 1);
    assert_eq!(peers.infos(), vec![PeerInfo { id: 7, connected: false }]);
    assert_eq!(peers.canceled(), &vec![100, 101]);
    assert_eq!(peers.take_canceled(), vec![100, 101]);
    assert!(peers.canceled().is_empty());
}

#[test]
fn add_connecting_replaces_a_live_entry() {
    let mut peers = Peers::new(1);
    connected_peer(&mut peers, 7, 100);
    assert_eq!(peers.add_connecting(7, 101, ConnectOptions::default()), Ok(()));
    assert_eq!(peers.infos(), vec![PeerInfo { id: 7, connected: false }]);
    assert_eq!(peers.canceled(), &vec![100]);
}

#[test]
fn add_connecting_fails_at_capacity_without_slack() {
    let mut peers = Peers::new(2);
    connected_peer(&mut peers, 1, 10);
    connected_peer(&mut peers, 2, 20);
    assert_eq!(peers.add_connecting(3, 30, ConnectOptions::default()), Err(Error::AtCapacity));
    assert_eq!(
        peers.infos(),
        vec![PeerInfo { id: 1, connected: true }, PeerInfo { id: 2, connected: true }]
    );
    assert!(peers.canceled().is_empty());
}

#[test]
fn add_connecting_fails_at_capacity_when_nothing_is_live() {
    let mut peers = Peers::new(1);
    assert_eq!(peers.add_connecting(1, 10, ConnectOptions::default()), Ok(()));
    let options = ConnectOptions { evict_clients: 1, ..ConnectOptions::default() };
    assert_eq!(peers.add_connecting(2, 20, options), Err(Error::AtCapacity));
    assert_eq!(peers.infos(), vec![PeerInfo { id: 1, connected: false }]);
}

#[test]
fn add_connecting_with_zero_capacity_always_fails() {
    let mut peers = Peers::new(0);
    let options = ConnectOptions { evict_clients: 3, ..ConnectOptions::default() };
    assert_eq!(peers.add_connecting(1, 10, options), Err(Error::AtCapacity));
    assert_eq!(peers.len(), 0);
}

#[test]
fn add_connecting_evicts_the_oldest_live_connection_when_full() {
    let mut peers = Peers::new(3);
    assert_eq!(peers.add_connecting(1, 10, ConnectOptions::default()), Ok(()));
    connected_peer(&mut peers, 2, 20);
    connected_peer(&mut peers, 3, 30);
    let options = ConnectOptions { evict_clients: 1, ..ConnectOptions::default() };
    assert_eq!(peers.add_connecting(4, 40, options), Ok(()));
    assert_eq!(
        peers.infos(),
        vec![
            PeerInfo { id: 1, connected: false },
            PeerInfo { id: 3, connected: true },
            PeerInfo { id: 4, connected: false },
        ]
    );
    assert_eq!(peers.canceled(), &vec![20]);
}

#[test]
fn establish_queues_what_was_pending() {
    let mut peers = Peers::new(4);
    let gossip = Gossip { nodes: vec![node(9)] };
    let options = ConnectOptions {
        pending_block_announcement: Some(Header { hash: hash(1) }),
        pending_fragment: Some(Fragment { hash: hash(2) }),
        pending_gossip: Some(gossip.clone()),
        evict_clients: 0,
    };
    assert_eq!(peers.add_connecting(7, 100, options), Ok(()));
    assert!(peers.outbound().is_empty());
    assert!(peers.establish(7));
    assert!(peers.connected(7));
    assert_eq!(
        peers.outbound(),
        &vec![
            Delivery { to: 7, msg: Outbound::Block(Header { hash: hash(1) }) },
            Delivery { to: 7, msg: Outbound::Fragment(Fragment { hash: hash(2) }) },
            Delivery { to: 7, msg: Outbound::Gossip(gossip) },
        ]
    );
    // the options are consumed once: a second call finds nothing pending
    assert!(!peers.establish(7));
    assert_eq!(peers.outbound().len(), 3);
}

#[test]
fn establish_of_an_unknown_node_does_nothing() {
    let mut peers = Peers::new(4);
    assert!(!peers.establish(7));
    assert_eq!(peers.len(), 0);
    assert!(peers.outbound().is_empty());
}

#[test]
fn propagate_block_reports_the_unreachable_peers() {
    let mut peers = Peers::new(4);
    connected_peer(&mut peers, 1, 10);
    assert_eq!(peers.add_connecting(2, 20, ConnectOptions::default()), Ok(()));
    let header = Header { hash: hash(5) };
    let res = peers.propagate_block(&vec![node(1), node(2), node(3)], header);
    assert_eq!(res, Err(vec![node(2), node(3)]));
    assert_eq!(peers.outbound(), &vec![Delivery { to: 1, msg: Outbound::Block(header) }]);
}

#[test]
fn propagate_block_succeeds_when_all_are_connected() {
    let mut peers = Peers::new(4);
    connected_peer(&mut peers, 1, 10);
    connected_peer(&mut peers, 2, 20);
    let header = Header { hash: hash(5) };
    assert_eq!(peers.propagate_block(&vec![node(2), node(1)], header), Ok(()));
    assert_eq!(
        peers.outbound(),
        &vec![
            Delivery { to: 2, msg: Outbound::Block(header) },
            Delivery { to: 1, msg: Outbound::Block(header) },
        ]
    );
}

#[test]
fn propagate_to_nobody_succeeds() {
    let mut peers = Peers::new(4);
    assert_eq!(peers.propagate_block(&vec![], Header { hash: hash(5) }), Ok(()));
    assert!(peers.outbound().is_empty());
}

#[test]
fn propagate_fragment_reports_the_unreachable_peers() {
    let mut peers = Peers::new(4);
    connected_peer(&mut peers, 3, 30);
    let fragment = Fragment { hash: hash(6) };
    let res = peers.propagate_fragment(&vec![node(1), node(3), node(1)], fragment);
    assert_eq!(res, Err(vec![node(1), node(1)]));
    assert_eq!(peers.outbound(), &vec![Delivery { to: 3, msg: Outbound::Fragment(fragment) }]);
}

#[test]
fn propagate_gossip_to_hands_the_gossip_back() {
    let mut peers = Peers::new(4);
    let gossip = Gossip { nodes: vec![node(1), node(2)] };
    assert_eq!(peers.propagate_gossip_to(5, gossip.clone()), Err(gossip.clone()));
    assert!(peers.outbound().is_empty());
    connected_peer(&mut peers, 5, 50);
    assert_eq!(peers.propagate_gossip_to(5, gossip.clone()), Ok(()));
    assert_eq!(peers.take_outbound(), vec![Delivery { to: 5, msg: Outbound::Gossip(gossip) }]);
    assert!(peers.outbound().is_empty());
}

#[test]
fn fetch_blocks_needs_a_live_connection() {
    let mut peers = Peers::new(4);
    assert_eq!(peers.fetch_blocks(vec![hash(1)]), Err(Error::NoRoute));
    assert_eq!(peers.add_connecting(1, 10, ConnectOptions::default()), Ok(()));
    assert_eq!(peers.fetch_blocks(vec![hash(1)]), Err(Error::NoRoute));
    connected_peer(&mut peers, 2, 20);
    connected_peer(&mut peers, 3, 30);
    assert_eq!(peers.fetch_blocks(vec![hash(1), hash(2)]), Ok(()));
    assert_eq!(
        peers.outbound(),
        &vec![Delivery { to: 2, msg: Outbound::FetchBlocks(vec![hash(1), hash(2)]) }]
    );
}

#[test]
fn solicit_blocks_fails_for_an_unknown_peer() {
    let mut peers = Peers::new(4);
    assert_eq!(peers.solicit_blocks(9, vec![hash(1)]), Err(Error::PeerUnknown(9)));
    assert_eq!(peers.add_connecting(9, 90, ConnectOptions::default()), Ok(()));
    assert_eq!(peers.solicit_blocks(9, vec![hash(1)]), Err(Error::PeerUnknown(9)));
    assert!(peers.establish(9));
    assert_eq!(peers.solicit_blocks(9, vec![hash(1)]), Ok(()));
    assert_eq!(
        peers.outbound(),
        &vec![Delivery { to: 9, msg: Outbound::SolicitBlocks(vec![hash(1)]) }]
    );
}

#[test]
fn pull_headers_fails_for_an_unknown_peer() {
    let mut peers = Peers::new(4);
    assert_eq!(peers.pull_headers(9, vec![hash(1)], hash(2)), Err(Error::PeerUnknown(9)));
    connected_peer(&mut peers, 9, 90);
    assert_eq!(peers.pull_headers(9, vec![hash(1)], hash(2)), Ok(()));
    assert_eq!(
        peers.outbound(),
        &vec![Delivery { to: 9, msg: Outbound::PullHeaders { from: vec![hash(1)], to: hash(2) } }]
    );
}

#[test]
fn remove_peer_drops_the_entry_and_its_handle() {
    let mut peers = Peers::new(4);
    connected_peer(&mut peers, 1, 10);
    assert_eq!(peers.add_connecting(2, 20, ConnectOptions::default()), Ok(()));
    assert!(peers.remove_peer(2));
    assert!(!peers.remove_peer(2));
    assert_eq!(peers.infos(), vec![PeerInfo { id: 1, connected: true }]);
    assert_eq!(peers.canceled(), &vec![20]);
    assert!(peers.remove_peer(1));
    assert_eq!(peers.len(), 0);
    assert_eq!(peers.canceled(), &vec![20, 10]);
}

#[test]
fn holds_and_release_go_by_the_handle() {
    let mut peers = Peers::new(4);
    connected_peer(&mut peers, 1, 10);
    assert!(peers.holds(1, 10));
    assert!(!peers.holds(1, 11));
    assert!(!peers.holds(2, 10));
    assert!(!peers.release(1, 11));
    assert_eq!(peers.len(), 1);
    assert!(peers.release(1, 10));
    assert_eq!(peers.len(), 0);
    assert!(!peers.release(1, 10));
    assert!(peers.canceled().is_empty());
}

#[test]
fn propagate_takes_either_item() {
    let mut peers = Peers::new(4);
    connected_peer(&mut peers, 1, 10);
    let fragment = Fragment { hash: hash(6) };
    let msg = peer_network::types::PropagateMsg::Fragment(fragment);
    assert_eq!(peers.propagate(&vec![node(1), node(2)], msg), Err(vec![node(2)]));
    assert_eq!(peers.outbound(), &vec![Delivery { to: 1, msg: Outbound::Fragment(fragment) }]);
}
