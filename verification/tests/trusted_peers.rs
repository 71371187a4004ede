use peer_network::bootstrap::{bootstrap, fetch_block, trusted_peers_shuffled, AttemptOutcome, Block, BootstrapStep, FetchBlockError, FetchOutcome, FetchStep};
use peer_network::config::{Configuration, Peer, Protocol, TrustedPeer};
use peer_network::types::{Address, HeaderHash};

fn hash(b: u8) -> HeaderHash {
    HeaderHash { bytes: [b; 32] }
}

fn addr(port: u16) -> Address {
    Address { ip: 0x7f00_0001, port, v6: false }
}

fn peer(port: u16) -> Peer {
    Peer { connection: addr(port), protocol: Protocol::Grpc, timeout: 10 }
}

fn config(trusted: Vec<TrustedPeer>) -> Configuration {
    Configuration {
        node_id: 1000,
        listen_address: None,
        protocol: Protocol::Grpc,
        trusted_peers: trusted,
        max_connections: 8,
        max_client_connections: 4,
        timeout: 10,
        gossip_interval: 10,
        topology_force_reset_interval: None,
    }
}

fn trusted(n: u16) -> Vec<TrustedPeer> {
    (1..=n).map(|i| TrustedPeer { id: i as u64, address: Some(addr(i)) }).collect()
}

fn block(b: u8) -> Block {
    Block { hash: hash(b), content: vec![b, b] }
}

#[test]
fn shuffled_peers_are_the_dialable_trusted_peers() {
    let mut peers = trusted(20);
    peers.insert(3, TrustedPeer { id: 99, address: None });
    peers.push(TrustedPeer { id: 98, address: Some(addr(5)) });
    let c = config(peers);
    let mut got: Vec<u16> = trusted_peers_shuffled(&c).iter().map(|a| a.port).collect();
    got.sort();
    let mut want: Vec<u16> = (1..=20).collect();
    want.push(5);
    want.sort();
    assert_eq!(got, want);
}

#[test]
fn shuffled_peers_of_nobody() {
    assert!(trusted_peers_shuffled(&config(vec![])).is_empty());
    let c = config(vec![TrustedPeer { id: 1, address: None }]);
    assert!(trusted_peers_shuffled(&c).is_empty());
}

#[test]
fn bootstrap_without_trusted_peers_is_complete_at_once() {
    let c = config(vec![]);
    assert_eq!(bootstrap(&c, &vec![], &vec![]), BootstrapStep::Done(true));
}

#[test]
fn bootstrap_stops_at_the_first_success() {
    let c = config(trusted(3));
    let order = vec![addr(2), addr(3), addr(1)];
    assert_eq!(bootstrap(&c, &order, &vec![]), BootstrapStep::Attempt(peer(2)));
    assert_eq!(bootstrap(&c, &order, &vec![AttemptOutcome::Completed]), BootstrapStep::Done(true));
}

#[test]
fn bootstrap_goes_on_after_failures() {
    let c = config(trusted(3));
    let order = vec![addr(2), addr(3), addr(1)];
    let mut outcomes = vec![AttemptOutcome::Unreachable];
    assert_eq!(bootstrap(&c, &order, &outcomes), BootstrapStep::Attempt(peer(3)));
    outcomes.push(AttemptOutcome::Failed);
    assert_eq!(bootstrap(&c, &order, &outcomes), BootstrapStep::Attempt(peer(1)));
    outcomes.push(AttemptOutcome::Completed);
    assert_eq!(bootstrap(&c, &order, &outcomes), BootstrapStep::Done(true));
}

#[test]
fn bootstrap_fails_when_all_peers_fail() {
    let c = config(trusted(2));
    let order = vec![addr(1), addr(2)];
    let outcomes = vec![AttemptOutcome::Failed, AttemptOutcome::Unreachable];
    assert_eq!(bootstrap(&c, &order, &outcomes), BootstrapStep::Done(false));
}

#[test]
fn bootstrap_with_no_dialable_peer_is_not_bootstrapped() {
    let c = config(vec![TrustedPeer { id: 1, address: None }]);
    assert_eq!(bootstrap(&c, &vec![], &vec![]), BootstrapStep::Done(false));
}

#[test]
fn fetch_block_without_trusted_peers_fails_at_once() {
    let c = config(vec![]);
    assert_eq!(
        fetch_block(&c, hash(7), &vec![], vec![]),
        FetchStep::Done(Err(FetchBlockError::NoTrustedPeers))
    );
}

#[test]
fn fetch_block_asks_the_peers_in_order() {
    let c = config(trusted(3));
    let order = vec![addr(3), addr(1), addr(2)];
    assert_eq!(fetch_block(&c, hash(7), &order, vec![]), FetchStep::Attempt(peer(3)));
    assert_eq!(
        fetch_block(&c, hash(7), &order, vec![FetchOutcome::Unreachable]),
        FetchStep::Attempt(peer(1))
    );
    assert_eq!(
        fetch_block(&c, hash(7), &order, vec![FetchOutcome::Unreachable, FetchOutcome::Failed]),
        FetchStep::Attempt(peer(2))
    );
}

#[test]
fn fetch_block_returns_the_first_block() {
    let c = config(trusted(3));
    let order = vec![addr(3), addr(1), addr(2)];
    let outcomes = vec![FetchOutcome::Failed, FetchOutcome::Fetched(block(7))];
    assert_eq!(fetch_block(&c, hash(7), &order, outcomes), FetchStep::Done(Ok(block(7))));
    let outcomes = vec![
        FetchOutcome::Fetched(block(7)),
        FetchOutcome::Failed,
        FetchOutcome::Fetched(block(8)),
    ];
    assert_eq!(fetch_block(&c, hash(7), &order, outcomes), FetchStep::Done(Ok(block(7))));
}

#[test]
fn fetch_block_fails_when_all_peers_fail() {
    let c = config(trusted(2));
    let order = vec![addr(1), addr(2)];
    let outcomes = vec![FetchOutcome::Unreachable, FetchOutcome::Failed];
    assert_eq!(
        fetch_block(&c, hash(7), &order, outcomes),
        FetchStep::Done(Err(FetchBlockError::CouldNotDownloadBlock { block: hash(7) }))
    );
}

#[test]
fn shuffled_peers_come_in_a_new_order() {
    let c = config(trusted(40));
    let in_order: Vec<Address> = (1..=40).map(addr).collect();
    let got = trusted_peers_shuffled(&c);
    assert_eq!(got.len(), 40);
    assert_ne!(got, in_order);
}
