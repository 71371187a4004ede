//! Acquiring chain data from the trusted peers when the node starts: the
//! order in which they are tried, and what follows from each attempt.

use crate::config::{Configuration, Peer, Protocol, TrustedPeer};
use crate::types::{Address, HeaderHash};
use rand::seq::SliceRandom;
use vstd::prelude::*;

verus! {

/// How the bootstrap exchange with one peer ended.
#[derive(Clone, Copy, Debug, PartialEq, Eq)]
pub enum AttemptOutcome {
    /// The chain was brought up to the peer's tip.
    Completed,
    /// The peer could not be reached.
    Unreachable,
    /// The peer was reached, and the exchange failed.
    Failed,
}

/// What the bootstrap does next.
#[derive(Clone, Copy, Debug, PartialEq, Eq)]
pub enum BootstrapStep {
    /// Try this peer.
    Attempt(Peer),
    /// Stop; the value says whether the node counts as bootstrapped.
    Done(bool),
}

/// A block as it comes from a peer.
#[derive(Clone, Debug, PartialEq, Eq)]
pub struct Block {
    pub hash: HeaderHash,
    pub content: Vec<u8>,
}

/// How the request for a block to one peer ended.
#[derive(Clone, Debug, PartialEq, Eq)]
pub enum FetchOutcome {
    /// The peer sent the block.
    Fetched(Block),
    /// The peer could not be reached.
    Unreachable,
    /// The peer was reached, and the download failed.
    Failed,
}

/// Why a block could not be had from the trusted peers.
#[derive(Clone, Copy, Debug, PartialEq, Eq)]
pub enum FetchBlockError {
    /// No trusted peers are specified.
    NoTrustedPeers,
    /// No trusted peer delivered the block with this hash.
    CouldNotDownloadBlock { block: HeaderHash },
}

/// What the download of a block does next.
#[derive(Debug, PartialEq, Eq)]
pub enum FetchStep {
    /// Ask this peer.
    Attempt(Peer),
    /// Stop, with the block or the reason why there is none.
    Done(Result<Block, FetchBlockError>),
}

/// The trusted peers that have a socket address, in their order.
pub open spec fn dialable(peers: Seq<TrustedPeer>) -> Seq<TrustedPeer> {
    peers.filter(|p: TrustedPeer| p.address is Some)
}

/// The socket addresses of the trusted peers that have one, in their order.
pub open spec fn addresses_of(peers: Seq<TrustedPeer>) -> Seq<Address> {
    Seq::new(dialable(peers).len(), |i: int| dialable(peers)[i].address.unwrap())
}

/// The peer behind a trusted address.
pub open spec fn peer_at(config: Configuration, address: Address) -> Peer {
    Peer { connection: address, protocol: Protocol::Grpc, timeout: config.timeout }
}

/// One of the first `n` attempts completed the bootstrap.
pub open spec fn completed_within(outcomes: Seq<AttemptOutcome>, n: int) -> bool {
    exists|i: int| 0 <= i < n && i < outcomes.len() && #[trigger] outcomes[i] == AttemptOutcome::Completed
}

/// What the bootstrap does next, with the trusted addresses in the order
/// `order` and `outcomes` the ends of the attempts made so far.
pub open spec fn bootstrap_step(config: Configuration, order: Seq<Address>, outcomes: Seq<AttemptOutcome>) -> BootstrapStep {
    if config.trusted_peers@.len() == 0 {
        BootstrapStep::Done(true)
    } else if completed_within(outcomes, order.len() as int) {
        BootstrapStep::Done(true)
    } else if outcomes.len() >= order.len() {
        BootstrapStep::Done(false)
    } else {
        BootstrapStep::Attempt(peer_at(config, order[outcomes.len() as int]))
    }
}

/// The attempt `i` is the first of the first `n` that brought the block.
pub open spec fn first_fetched_at(outcomes: Seq<FetchOutcome>, n: int, i: int) -> bool {
    &&& 0 <= i < n
    &&& i < outcomes.len()
    &&& outcomes[i] is Fetched
    &&& forall|j: int| 0 <= j < i ==> !(#[trigger] outcomes[j] is Fetched)
}

/// One of the first `n` attempts brought the block.
pub open spec fn fetched_within(outcomes: Seq<FetchOutcome>, n: int) -> bool {
    exists|i: int| first_fetched_at(outcomes, n, i)
}

/// The block that the first successful attempt brought.
pub open spec fn first_fetched(outcomes: Seq<FetchOutcome>, n: int) -> Block {
    outcomes[choose|i: int| first_fetched_at(outcomes, n, i)]->Fetched_0
}

/// What the download of the block `hash` does next, with the trusted
/// addresses in the order `order` and `outcomes` the ends of the attempts
/// made so far.
pub open spec fn fetch_step(config: Configuration, hash: HeaderHash, order: Seq<Address>, outcomes: Seq<FetchOutcome>) -> FetchStep {
    if config.trusted_peers@.len() == 0 {
        FetchStep::Done(Err(FetchBlockError::NoTrustedPeers))
    } else if fetched_within(outcomes, order.len() as int) {
        FetchStep::Done(Ok(first_fetched(outcomes, order.len() as int)))
    } else if outcomes.len() >= order.len() {
        FetchStep::Done(Err(FetchBlockError::CouldNotDownloadBlock { block: hash }))
    } else {
        FetchStep::Attempt(peer_at(config, order[outcomes.len() as int]))
    }
}

/// `rand::rngs::ThreadRng`: the handle to the random number generator of a
/// thread. Nothing of what it holds is known here.
#[verifier::external_type_specification]
#[verifier::external_body]
pub struct ExThreadRng(rand::rngs::ThreadRng);

/// `rand::thread_rng`: the random number generator of the current thread.
/// Nothing is claimed of it.
#[verifier::external_body]
fn thread_rng() -> (rng: rand::rngs::ThreadRng) {
    rand::thread_rng()
}

/// `rand::seq::SliceRandom::shuffle` on the addresses: it swaps elements in
/// place, so the same addresses are there afterwards, each as often as
/// before. In which order is not known.
#[verifier::external_body]
fn shuffle(addresses: &mut Vec<Address>, rng: &mut rand::rngs::ThreadRng)
    ensures
        final(addresses)@.to_multiset() == old(addresses)@.to_multiset(),
        final(addresses)@.len() == old(addresses)@.len(),
{
    addresses.shuffle(rng);
}

/// How the addresses of the first `k + 1` trusted peers come from those of
/// the first `k`.
proof fn lemma_dialable_step(peers: Seq<TrustedPeer>, k: int)
    requires
        0 <= k < peers.len(),
    ensures
        addresses_of(peers.take(k + 1)) == (match peers[k].address {
            Some(a) => addresses_of(peers.take(k)).push(a),
            None => addresses_of(peers.take(k)),
        }),
{
    reveal(Seq::filter);
    assert(peers.take(k + 1).drop_last() =~= peers.take(k));
    assert(peers.take(k + 1).last() == peers[k]);
    match peers[k].address {
        Some(a) => {
            assert(addresses_of(peers.take(k + 1)) =~= addresses_of(peers.take(k)).push(a));
        },
        None => {},
    }
}

/// The socket addresses of the trusted peers, in the order in which they
/// are to be tried: a random one.
pub fn trusted_peers_shuffled(config: &Configuration) -> (r: Vec<Address>)
    ensures
        r@.to_multiset() == addresses_of(config.trusted_peers@).to_multiset(),
        r@.len() == addresses_of(config.trusted_peers@).len(),
{
    let mut peers: Vec<Address> = Vec::new();
    let mut i: usize = 0;
    proof {
        reveal(Seq::filter);
        assert(config.trusted_peers@.take(0) =~= Seq::<TrustedPeer>::empty());
        assert(peers@ =~= addresses_of(config.trusted_peers@.take(0)));
    }
    while i < config.trusted_peers.len()
        invariant
            i <= config.trusted_peers@.len(),
            peers@ == addresses_of(config.trusted_peers@.take(i as int)),
        decreases config.trusted_peers@.len() - i,
    {
        proof {
            lemma_dialable_step(config.trusted_peers@, i as int);
        }
        match config.trusted_peers[i].address {
            Some(a) => {
                peers.push(a);
            },
            None => {},
        }
        i += 1;
    }
    assert(config.trusted_peers@.take(i as int) =~= config.trusted_peers@);
    let mut rng = thread_rng();
    shuffle(&mut peers, &mut rng);
    peers
}

/// Decides how the bootstrap goes on. With no trusted peer configured there
/// is nothing to bootstrap from, and it is complete. Else the addresses are
/// tried in their order until one attempt completes; when all were tried in
/// vain, the node is not bootstrapped.
pub fn bootstrap(config: &Configuration, order: &Vec<Address>, outcomes: &Vec<AttemptOutcome>) -> (r: BootstrapStep)
    requires
        config.protocol == Protocol::Grpc,
    ensures
        r == bootstrap_step(*config, order@, outcomes@),
{
    if config.trusted_peers.len() == 0 {
        return BootstrapStep::Done(true);
    }
    let mut i: usize = 0;
    while i < outcomes.len() && i < order.len()
        invariant
            forall|k: int| 0 <= k < i && k < outcomes@.len() ==> outcomes@[k] != AttemptOutcome::Completed,
        decreases outcomes@.len() - i,
    {
        match outcomes[i] {
            AttemptOutcome::Completed => {
                assert(outcomes@[i as int] == AttemptOutcome::Completed);
                return BootstrapStep::Done(true);
            },
            _ => {},
        }
        i += 1;
    }
    if outcomes.len() >= order.len() {
        BootstrapStep::Done(false)
    } else {
        BootstrapStep::Attempt(Peer::new(order[outcomes.len()], Protocol::Grpc, config.timeout))
    }
}

/// The first attempt that brought the block is the only one that no such
/// attempt precedes.
proof fn lemma_first_fetched(outcomes: Seq<FetchOutcome>, n: int, i: int)
    requires
        first_fetched_at(outcomes, n, i),
    ensures
        fetched_within(outcomes, n),
        first_fetched(outcomes, n) == outcomes[i]->Fetched_0,
{
    let c = choose|k: int| first_fetched_at(outcomes, n, k);
    assert(first_fetched_at(outcomes, n, c));
    if c < i {
        assert(!(outcomes[c] is Fetched));
    } else if i < c {
        assert(!(outcomes[i] is Fetched));
    }
}

/// Decides how the download of the block `hash` goes on. With no trusted
/// peer configured it fails at once. Else the addresses are asked in their
/// order until one peer sends the block; when all were asked in vain, the
/// block could not be downloaded.
pub fn fetch_block(config: &Configuration, hash: HeaderHash, order: &Vec<Address>, outcomes: Vec<FetchOutcome>) -> (r: FetchStep)
    requires
        config.protocol == Protocol::Grpc,
    ensures
        r == fetch_step(*config, hash, order@, outcomes@),
{
    if config.trusted_peers.len() == 0 {
        return FetchStep::Done(Err(FetchBlockError::NoTrustedPeers));
    }
    let mut results = outcomes;
    let ghost all = results@;
    let made: usize = results.len();
    let mut i: usize = 0;
    while i < made && i < order.len()
        invariant
            config.trusted_peers@.len() != 0,
            all == outcomes@,
            results@ == all,
            made == all.len(),
            forall|k: int| 0 <= k < i && k < all.len() ==> !(#[trigger] all[k] is Fetched),
        decreases made - i,
    {
        let hit = match &results[i] {
            FetchOutcome::Fetched(_) => true,
            _ => false,
        };
        if hit {
            proof {
                lemma_first_fetched(all, order@.len() as int, i as int);
            }
            let found = results.swap_remove(i);
            return match found {
                FetchOutcome::Fetched(block) => FetchStep::Done(Ok(block)),
                _ => FetchStep::Done(Err(FetchBlockError::CouldNotDownloadBlock { block: hash })),
            };
        }
        i += 1;
    }
    if made >= order.len() {
        FetchStep::Done(Err(FetchBlockError::CouldNotDownloadBlock { block: hash }))
    } else {
        FetchStep::Attempt(Peer::new(order[made], Protocol::Grpc, config.timeout))
    }
}

/// With no trusted peer configured the bootstrap is complete before any
/// attempt is made, whatever the order holds.
pub proof fn lemma_bootstrap_without_trusted_peers(config: Configuration, order: Seq<Address>)
    requires
        config.trusted_peers@.len() == 0,
    ensures
        bootstrap_step(config, order, Seq::<AttemptOutcome>::empty()) == BootstrapStep::Done(true),
{
}

/// With trusted peers configured, as long as no attempt has completed the
/// addresses are tried one after the other in their order, and when all
/// were tried the node is not bootstrapped.
pub proof fn lemma_bootstrap_continues(config: Configuration, order: Seq<Address>, outcomes: Seq<AttemptOutcome>)
    requires
        config.trusted_peers@.len() > 0,
        forall|i: int| 0 <= i < outcomes.len() ==> outcomes[i] != AttemptOutcome::Completed,
    ensures
        outcomes.len() < order.len() ==> bootstrap_step(config, order, outcomes) == BootstrapStep::Attempt(
            peer_at(config, order[outcomes.len() as int]),
        ),
        outcomes.len() >= order.len() ==> bootstrap_step(config, order, outcomes) == BootstrapStep::Done(false),
{
}

/// Once an attempt has completed, the bootstrap is done and the node is
/// bootstrapped: the peers after it are not tried. Where the first peer
/// completes, that is after exactly one attempt.
pub proof fn lemma_bootstrap_stops_at_success(config: Configuration, order: Seq<Address>, outcomes: Seq<AttemptOutcome>)
    requires
        0 < outcomes.len() <= order.len(),
        outcomes.last() == AttemptOutcome::Completed,
    ensures
        bootstrap_step(config, order, outcomes) == BootstrapStep::Done(true),
{
    assert(outcomes[outcomes.len() - 1] == AttemptOutcome::Completed);
}

/// With no trusted peer configured the download fails before any peer is
/// asked, whatever the order holds.
pub proof fn lemma_fetch_without_trusted_peers(config: Configuration, hash: HeaderHash, order: Seq<Address>)
    requires
        config.trusted_peers@.len() == 0,
    ensures
        fetch_step(config, hash, order, Seq::<FetchOutcome>::empty()) == FetchStep::Done(
            Err(FetchBlockError::NoTrustedPeers),
        ),
{
}

/// With trusted peers configured, as long as no peer has sent the block the
/// addresses are asked one after the other in their order, and when all
/// were asked the block of that hash could not be downloaded.
pub proof fn lemma_fetch_continues(config: Configuration, hash: HeaderHash, order: Seq<Address>, outcomes: Seq<FetchOutcome>)
    requires
        config.trusted_peers@.len() > 0,
        forall|i: int| 0 <= i < outcomes.len() ==> !(outcomes[i] is Fetched),
    ensures
        outcomes.len() < order.len() ==> fetch_step(config, hash, order, outcomes) == FetchStep::Attempt(
            peer_at(config, order[outcomes.len() as int]),
        ),
        outcomes.len() >= order.len() ==> fetch_step(config, hash, order, outcomes) == FetchStep::Done(
            Err(FetchBlockError::CouldNotDownloadBlock { block: hash }),
        ),
{
}

} // verus!
