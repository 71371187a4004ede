//! The peer registry: which nodes the process is connecting or connected to,
//! and the queue of what is to be sent to them.

use crate::types::{ConnectHandle, ConnectOptions, Fragment, Gossip, Header, HeaderHash, Node, NodeId, PropagateMsg};
use vstd::prelude::*;

verus! {

/// State of a registry entry.
#[derive(Clone, Debug, PartialEq, Eq)]
pub enum PeerState {
    /// An outbound attempt is pending; the options wait for the connection.
    Connecting(ConnectOptions),
    /// A live channel to the peer exists.
    Connected,
}

/// One registry entry.
#[derive(Clone, Debug, PartialEq, Eq)]
pub struct PeerEntry {
    pub id: NodeId,
    pub handle: ConnectHandle,
    pub state: PeerState,
}

/// A message for a connected peer.
#[derive(Clone, Debug, PartialEq, Eq)]
pub enum Outbound {
    Block(Header),
    Fragment(Fragment),
    Gossip(Gossip),
    FetchBlocks(Vec<HeaderHash>),
    SolicitBlocks(Vec<HeaderHash>),
    PullHeaders { from: Vec<HeaderHash>, to: HeaderHash },
}

/// A message together with the connected peer it goes to.
#[derive(Clone, Debug, PartialEq, Eq)]
pub struct Delivery {
    pub to: NodeId,
    pub msg: Outbound,
}

/// Diagnostic snapshot of one registry entry.
#[derive(Clone, Copy, Debug, PartialEq, Eq)]
pub struct PeerInfo {
    pub id: NodeId,
    pub connected: bool,
}

/// Failures of registry operations.
#[derive(Clone, Copy, Debug, PartialEq, Eq)]
pub enum Error {
    /// The registry is full and nothing may be evicted.
    AtCapacity,
    /// No peer is connected at all.
    NoRoute,
    /// The node has no live connection.
    PeerUnknown(NodeId),
}

/// No two entries share a node identifier.
pub open spec fn unique_ids(s: Seq<PeerEntry>) -> bool {
    forall|i: int, j: int| 0 <= i < j < s.len() ==> s[i].id != s[j].id
}

/// Some entry is for `id`.
pub open spec fn has_entry(s: Seq<PeerEntry>, id: NodeId) -> bool {
    exists|i: int| 0 <= i < s.len() && #[trigger] s[i].id == id
}

/// The place of the entry for `id`.
pub open spec fn position(s: Seq<PeerEntry>, id: NodeId) -> int {
    choose|i: int| 0 <= i < s.len() && #[trigger] s[i].id == id
}

/// Some entry is for `id` and is connected.
pub open spec fn connected_in(s: Seq<PeerEntry>, id: NodeId) -> bool {
    exists|i: int| 0 <= i < s.len() && #[trigger] s[i].id == id && s[i].state is Connected
}

/// The entry for `id` is the one that was registered under `handle`.
pub open spec fn held_by(s: Seq<PeerEntry>, id: NodeId, handle: ConnectHandle) -> bool {
    exists|i: int| 0 <= i < s.len() && #[trigger] s[i].id == id && s[i].handle == handle
}

/// The entries without the one for `id`, in their order.
pub open spec fn without(s: Seq<PeerEntry>, id: NodeId) -> Seq<PeerEntry> {
    if has_entry(s, id) {
        s.remove(position(s, id))
    } else {
        s
    }
}

/// The handle of the entry for `id`, if there is one: what is canceled when
/// that entry goes.
pub open spec fn handle_of(s: Seq<PeerEntry>, id: NodeId) -> Seq<ConnectHandle> {
    if has_entry(s, id) {
        seq![s[position(s, id)].handle]
    } else {
        Seq::empty()
    }
}

/// `i` is the place of the oldest connected entry.
pub open spec fn first_connected_at(s: Seq<PeerEntry>, i: int) -> bool {
    &&& 0 <= i < s.len()
    &&& s[i].state is Connected
    &&& forall|j: int| 0 <= j < i ==> !(#[trigger] s[j].state is Connected)
}

/// Some entry is connected.
pub open spec fn any_connected(s: Seq<PeerEntry>) -> bool {
    exists|i: int| first_connected_at(s, i)
}

/// The node of the oldest connected entry.
pub open spec fn first_connected(s: Seq<PeerEntry>) -> NodeId {
    s[choose|i: int| first_connected_at(s, i)].id
}

/// With `limit` entries allowed, no room is left for an entry for `id`
/// beside those for other nodes.
pub open spec fn is_full(s: Seq<PeerEntry>, limit: nat, id: NodeId) -> bool {
    without(s, id).len() >= limit
}

/// An attempt for `id` that may evict `evict` client connections is turned
/// away: the registry is full, and either nothing may be evicted or no
/// other node has a live connection to give up.
pub open spec fn refuses(s: Seq<PeerEntry>, limit: nat, id: NodeId, evict: usize) -> bool {
    is_full(s, limit, id) && (evict == 0 || !any_connected(without(s, id)))
}

/// The entries that stay when an attempt for `id` is admitted: the earlier
/// entry for `id` goes, and where the registry is full the oldest live
/// connection goes too.
pub open spec fn making_room(s: Seq<PeerEntry>, limit: nat, id: NodeId) -> Seq<PeerEntry> {
    let base = without(s, id);
    if is_full(s, limit, id) {
        without(base, first_connected(base))
    } else {
        base
    }
}

/// The handles of the entries that go when an attempt for `id` is admitted:
/// first that of the superseded entry, then that of the evicted one.
pub open spec fn released(s: Seq<PeerEntry>, limit: nat, id: NodeId) -> Seq<ConnectHandle> {
    let base = without(s, id);
    if is_full(s, limit, id) {
        handle_of(s, id) + handle_of(base, first_connected(base))
    } else {
        handle_of(s, id)
    }
}

/// The nodes of `list` that have a live connection, in their order.
pub open spec fn reachable(s: Seq<PeerEntry>, list: Seq<Node>) -> Seq<Node> {
    list.filter(|n: Node| connected_in(s, n.id))
}

/// The nodes of `list` that have no live connection, in their order.
pub open spec fn out_of_reach(s: Seq<PeerEntry>, list: Seq<Node>) -> Seq<Node> {
    list.filter(|n: Node| !connected_in(s, n.id))
}

/// One delivery of `msg` to each node of `list`, in their order.
pub open spec fn deliveries_to(list: Seq<Node>, msg: Outbound) -> Seq<Delivery> {
    Seq::new(list.len(), |i: int| Delivery { to: list[i].id, msg })
}

/// The diagnostic snapshot of an entry.
pub open spec fn info_of(e: PeerEntry) -> PeerInfo {
    PeerInfo { id: e.id, connected: e.state is Connected }
}

/// The items that wait in `options`, as deliveries to `to`: the block
/// announcement, then the fragment, then the gossip.
pub open spec fn pending_deliveries(to: NodeId, options: ConnectOptions) -> Seq<Delivery> {
    let block: Seq<Delivery> = match options.pending_block_announcement {
        Some(h) => seq![Delivery { to, msg: Outbound::Block(h) }],
        None => Seq::empty(),
    };
    let fragment: Seq<Delivery> = match options.pending_fragment {
        Some(f) => seq![Delivery { to, msg: Outbound::Fragment(f) }],
        None => Seq::empty(),
    };
    let gossip: Seq<Delivery> = match options.pending_gossip {
        Some(g) => seq![Delivery { to, msg: Outbound::Gossip(g) }],
        None => Seq::empty(),
    };
    block + fragment + gossip
}

/// The message that carries a propagated item.
pub open spec fn outbound_of(msg: PropagateMsg) -> Outbound {
    match msg {
        PropagateMsg::Block(h) => Outbound::Block(h),
        PropagateMsg::Fragment(f) => Outbound::Fragment(f),
    }
}

/// The registry of peers.
pub struct Peers {
    capacity: usize,
    entries: Vec<PeerEntry>,
    outbound: Vec<Delivery>,
    canceled: Vec<ConnectHandle>,
}

/// With one entry per node, the entry at `i` is the one that its node is
/// found by, and taking it out leaves no entry for that node.
pub(crate) proof fn lemma_position(s: Seq<PeerEntry>, i: int)
    requires
        unique_ids(s),
        0 <= i < s.len(),
    ensures
        has_entry(s, s[i].id),
        position(s, s[i].id) == i,
        without(s, s[i].id) == s.remove(i),
        handle_of(s, s[i].id) == seq![s[i].handle],
        unique_ids(s.remove(i)),
        !has_entry(s.remove(i), s[i].id),
        s[i].state is Connected ==> connected_in(s, s[i].id),
        !(s[i].state is Connected) ==> !connected_in(s, s[i].id),
        forall|h: ConnectHandle| held_by(s, s[i].id, h) <==> s[i].handle == h,
{
    let id = s[i].id;
    assert forall|h: ConnectHandle| held_by(s, id, h) implies s[i].handle == h by {
        let k = choose|k: int| 0 <= k < s.len() && #[trigger] s[k].id == id && s[k].handle == h;
        if k < i {
            assert(s[k].id != s[i].id);
        } else if i < k {
            assert(s[i].id != s[k].id);
        }
    }
    assert(s[i].id == id);
    let p = position(s, id);
    assert(0 <= p < s.len() && s[p].id == id);
    if p < i {
        assert(s[p].id != s[i].id);
    } else if i < p {
        assert(s[i].id != s[p].id);
    }
    let r = s.remove(i);
    assert forall|a: int, b: int| 0 <= a < b < r.len() implies r[a].id != r[b].id by {
        let a2 = if a < i { a } else { a + 1 };
        let b2 = if b < i { b } else { b + 1 };
        assert(r[a] == s[a2] && r[b] == s[b2]);
    }
    assert forall|a: int| 0 <= a < r.len() implies #[trigger] r[a].id != id by {
        let a2 = if a < i { a } else { a + 1 };
        assert(r[a] == s[a2]);
        if a2 < i {
            assert(s[a2].id != s[i].id);
        } else {
            assert(s[i].id != s[a2].id);
        }
    }
    if !(s[i].state is Connected) {
        assert forall|k: int| 0 <= k < s.len() && #[trigger] s[k].id == id implies !(s[k].state is Connected) by {
            if k < i {
                assert(s[k].id != s[i].id);
            } else if i < k {
                assert(s[i].id != s[k].id);
            }
        }
    }
}

/// The oldest connected entry is the only one that no connected entry
/// precedes.
proof fn lemma_first_connected(s: Seq<PeerEntry>, i: int)
    requires
        first_connected_at(s, i),
    ensures
        any_connected(s),
        first_connected(s) == s[i].id,
{
    let c = choose|k: int| first_connected_at(s, k);
    assert(first_connected_at(s, c));
    if c < i {
        assert(!(s[c].state is Connected));
    } else if i < c {
        assert(!(s[i].state is Connected));
    }
}

/// Taking an entry out brings no node in.
proof fn lemma_remove_absent(s: Seq<PeerEntry>, j: int, id: NodeId)
    requires
        0 <= j < s.len(),
        !has_entry(s, id),
    ensures
        !has_entry(s.remove(j), id),
{
    let r = s.remove(j);
    assert forall|a: int| 0 <= a < r.len() implies #[trigger] r[a].id != id by {
        let a2 = if a < j { a } else { a + 1 };
        assert(r[a] == s[a2]);
        assert(s[a2].id != id);
    }
}

/// An entry for a node that has none can be added.
proof fn lemma_push_unique(s: Seq<PeerEntry>, e: PeerEntry)
    requires
        unique_ids(s),
        !has_entry(s, e.id),
    ensures
        unique_ids(s.push(e)),
{
    let r = s.push(e);
    assert forall|a: int, b: int| 0 <= a < b < r.len() implies r[a].id != r[b].id by {
        if b == s.len() {
            assert(r[a] == s[a]);
            assert(s[a].id != e.id);
        } else {
            assert(r[a] == s[a] && r[b] == s[b]);
        }
    }
}

/// How the reachable and the unreachable nodes of the first `k + 1` nodes
/// come from those of the first `k`.
proof fn lemma_filter_step(s: Seq<PeerEntry>, list: Seq<Node>, k: int)
    requires
        0 <= k < list.len(),
    ensures
        reachable(s, list.take(k + 1)) == (if connected_in(s, list[k].id) {
            reachable(s, list.take(k)).push(list[k])
        } else {
            reachable(s, list.take(k))
        }),
        out_of_reach(s, list.take(k + 1)) == (if connected_in(s, list[k].id) {
            out_of_reach(s, list.take(k))
        } else {
            out_of_reach(s, list.take(k)).push(list[k])
        }),
{
    reveal(Seq::filter);
    assert(list.take(k + 1).drop_last() =~= list.take(k));
    assert(list.take(k + 1).last() == list[k]);
}

/// An attempt that is admitted leaves exactly one entry for its node, the
/// new one, whatever was registered for the node before; the registry stays
/// within its limit; and the handle of the entry that the node had before
/// is the first that is dropped for it.
pub proof fn lemma_one_entry_per_node(s: Seq<PeerEntry>, limit: nat, e: PeerEntry, evict: usize)
    requires
        unique_ids(s),
        s.len() <= limit,
        !refuses(s, limit, e.id, evict),
    ensures
        unique_ids(making_room(s, limit, e.id).push(e)),
        making_room(s, limit, e.id).push(e).len() <= limit,
        !has_entry(making_room(s, limit, e.id), e.id),
        has_entry(s, e.id) ==> released(s, limit, e.id).len() > 0 && released(s, limit, e.id)[0] == s[position(
            s,
            e.id,
        )].handle,
{
    let base = without(s, e.id);
    if has_entry(s, e.id) {
        let p = position(s, e.id);
        lemma_position(s, p);
    }
    if is_full(s, limit, e.id) {
        let c = choose|k: int| first_connected_at(base, k);
        lemma_first_connected(base, c);
        lemma_position(base, c);
        lemma_remove_absent(base, c, e.id);
    }
    lemma_push_unique(making_room(s, limit, e.id), e);
}

/// Propagation parts the peer list in two: the nodes that have a live
/// connection, to which the item is delivered, and those that have none,
/// which are reported. Together the two hold every node of the list as
/// often as the list does, so that none is left out and none is added.
pub proof fn lemma_propagation_partition(s: Seq<PeerEntry>, list: Seq<Node>)
    ensures
        reachable(s, list).to_multiset().add(out_of_reach(s, list).to_multiset()) == list.to_multiset(),
        reachable(s, list).len() + out_of_reach(s, list).len() == list.len(),
        forall|i: int| 0 <= i < reachable(s, list).len() ==> connected_in(s, (#[trigger] reachable(s, list)[i]).id),
        forall|i: int|
            0 <= i < out_of_reach(s, list).len() ==> !connected_in(s, (#[trigger] out_of_reach(s, list)[i]).id),
    decreases list.len(),
{
    broadcast use vstd::multiset::group_multiset_axioms;

    if list.len() == 0 {
        reveal(Seq::filter);
        assert(reachable(s, list) =~= list);
        assert(out_of_reach(s, list) =~= list);
        list.to_multiset_ensures();
        assert(list.to_multiset().add(list.to_multiset()) =~= list.to_multiset());
    } else {
        let init = list.drop_last();
        let last = list.last();
        let k = list.len() - 1;
        lemma_propagation_partition(s, init);
        lemma_filter_step(s, list, k);
        assert(list.take(k + 1) =~= list);
        assert(list.take(k) =~= init);
        assert(list =~= init.push(last));
        vstd::seq_lib::to_multiset_build(init, last);
        let r = reachable(s, init);
        let o = out_of_reach(s, init);
        if connected_in(s, last.id) {
            vstd::seq_lib::to_multiset_build(r, last);
            assert(r.to_multiset().insert(last).add(o.to_multiset()) =~= r.to_multiset().add(
                o.to_multiset(),
            ).insert(last));
        } else {
            vstd::seq_lib::to_multiset_build(o, last);
            assert(r.to_multiset().add(o.to_multiset().insert(last)) =~= r.to_multiset().add(
                o.to_multiset(),
            ).insert(last));
        }
    }
}

impl Peers {
    /// The entries, oldest first.
    pub closed spec fn entries(self) -> Seq<PeerEntry> {
        self.entries@
    }

    /// The most entries the registry may hold.
    pub closed spec fn limit(self) -> nat {
        self.capacity as nat
    }

    /// What is queued for delivery to connected peers, oldest first.
    pub closed spec fn queued(self) -> Seq<Delivery> {
        self.outbound@
    }

    /// The handles of the entries that the registry dropped, oldest first.
    pub closed spec fn dropped(self) -> Seq<ConnectHandle> {
        self.canceled@
    }

    /// The registry's invariant: one entry per node at most, and no more
    /// entries than the limit.
    pub open spec fn wf(self) -> bool {
        &&& unique_ids(self.entries())
        &&& self.entries().len() <= self.limit()
    }

    /// Both registries hold the same entries, queue, dropped handles and
    /// limit.
    pub open spec fn same_as(self, other: Peers) -> bool {
        &&& self.entries() == other.entries()
        &&& self.queued() == other.queued()
        &&& self.dropped() == other.dropped()
        &&& self.limit() == other.limit()
    }

    /// The node has a live connection.
    pub open spec fn is_connected(self, id: NodeId) -> bool {
        connected_in(self.entries(), id)
    }

    /// An empty registry for at most `max_connections` peers.
    pub fn new(max_connections: usize) -> (r: Peers)
        ensures
            r.wf(),
            r.limit() == max_connections,
            r.entries() == Seq::<PeerEntry>::empty(),
            r.queued() == Seq::<Delivery>::empty(),
            r.dropped() == Seq::<ConnectHandle>::empty(),
    {
        Peers { capacity: max_connections, entries: Vec::new(), outbound: Vec::new(), canceled: Vec::new() }
    }

    /// The place of the entry for `id`.
    fn find(&self, id: NodeId) -> (r: Option<usize>)
        ensures
            match r {
                Some(i) => i < self.entries().len() && self.entries()[i as int].id == id,
                None => !has_entry(self.entries(), id),
            },
    {
        let mut i: usize = 0;
        while i < self.entries.len()
            invariant
                i <= self.entries@.len(),
                forall|k: int| 0 <= k < i ==> self.entries@[k].id != id,
            decreases self.entries@.len() - i,
        {
            if self.entries[i].id == id {
                return Some(i);
            }
            i += 1;
        }
        None
    }

    /// The place of the oldest connected entry.
    fn find_connected(&self) -> (r: Option<usize>)
        ensures
            match r {
                Some(i) => first_connected_at(self.entries(), i as int),
                None => !any_connected(self.entries()),
            },
    {
        let mut i: usize = 0;
        while i < self.entries.len()
            invariant
                i <= self.entries@.len(),
                forall|k: int| 0 <= k < i ==> !(#[trigger] self.entries@[k].state is Connected),
            decreases self.entries@.len() - i,
        {
            let hit = match &self.entries[i].state {
                PeerState::Connected => true,
                PeerState::Connecting(_) => false,
            };
            if hit {
                return Some(i);
            }
            i += 1;
        }
        None
    }

    /// Whether the node has a live connection.
    pub fn connected(&self, id: NodeId) -> (r: bool)
        requires
            self.wf(),
        ensures
            r == self.is_connected(id),
    {
        match self.find(id) {
            Some(i) => {
                proof {
                    lemma_position(self.entries(), i as int);
                }
                match &self.entries[i].state {
                    PeerState::Connected => true,
                    PeerState::Connecting(_) => false,
                }
            },
            None => false,
        }
    }
}

impl Peers {
    /// The most entries the registry may hold.
    pub fn capacity(&self) -> (r: usize)
        ensures
            r == self.limit(),
    {
        self.capacity
    }

    /// The number of entries.
    pub fn len(&self) -> (r: usize)
        ensures
            r == self.entries().len(),
    {
        self.entries.len()
    }

    /// What is queued for delivery, oldest first.
    pub fn outbound(&self) -> (r: &Vec<Delivery>)
        ensures
            r@ == self.queued(),
    {
        &self.outbound
    }

    /// The handles of the dropped entries, oldest first.
    pub fn canceled(&self) -> (r: &Vec<ConnectHandle>)
        ensures
            r@ == self.dropped(),
    {
        &self.canceled
    }

    /// Hands out what is queued for delivery and empties the queue.
    pub fn take_outbound(&mut self) -> (r: Vec<Delivery>)
        ensures
            r@ == old(self).queued(),
            final(self).queued() == Seq::<Delivery>::empty(),
            final(self).entries() == old(self).entries(),
            final(self).dropped() == old(self).dropped(),
            final(self).limit() == old(self).limit(),
    {
        let mut out: Vec<Delivery> = Vec::new();
        std::mem::swap(&mut out, &mut self.outbound);
        out
    }

    /// Hands out the handles of the dropped entries and forgets them.
    pub fn take_canceled(&mut self) -> (r: Vec<ConnectHandle>)
        ensures
            r@ == old(self).dropped(),
            final(self).dropped() == Seq::<ConnectHandle>::empty(),
            final(self).entries() == old(self).entries(),
            final(self).queued() == old(self).queued(),
            final(self).limit() == old(self).limit(),
    {
        let mut out: Vec<ConnectHandle> = Vec::new();
        std::mem::swap(&mut out, &mut self.canceled);
        out
    }

    /// Registers a pending attempt to connect to `node_id`. An earlier entry
    /// for the node is superseded and its handle dropped. Where the registry
    /// is full, the attempt is admitted only if it may evict a client and
    /// another node has a live connection: the oldest of these is dropped.
    pub fn add_connecting(&mut self, node_id: NodeId, handle: ConnectHandle, options: ConnectOptions) -> (res: Result<(), Error>)
        requires
            old(self).wf(),
        ensures
            final(self).wf(),
            final(self).limit() == old(self).limit(),
            final(self).queued() == old(self).queued(),
            res is Err <==> refuses(old(self).entries(), old(self).limit(), node_id, options.evict_clients),
            match res {
                Ok(()) => {
                    &&& final(self).entries() == making_room(old(self).entries(), old(self).limit(), node_id).push(
                        PeerEntry { id: node_id, handle, state: PeerState::Connecting(options) },
                    )
                    &&& final(self).dropped() == old(self).dropped() + released(old(self).entries(), old(self).limit(), node_id)
                },
                Err(e) => {
                    &&& e == Error::AtCapacity
                    &&& final(self).entries() == old(self).entries()
                    &&& final(self).dropped() == old(self).dropped()
                },
            },
    {
        let ghost s0 = self.entries@;
        let ghost d0 = self.canceled@;
        let found = self.find(node_id);
        let mut superseded: Option<ConnectHandle> = None;
        match found {
            Some(i) => {
                proof {
                    lemma_position(s0, i as int);
                }
                let e = self.entries.remove(i);
                superseded = Some(e.handle);
            },
            None => {},
        }
        let ghost base = self.entries@;
        assert(base == without(s0, node_id));
        assert(unique_ids(base) && !has_entry(base, node_id));
        let mut evicted: Option<ConnectHandle> = None;
        if self.entries.len() >= self.capacity {
            let victim = if options.evict_clients == 0 {
                None
            } else {
                self.find_connected()
            };
            match victim {
                Some(j) => {
                    proof {
                        lemma_first_connected(base, j as int);
                        lemma_position(base, j as int);
                        lemma_remove_absent(base, j as int, node_id);
                    }
                    let e = self.entries.remove(j);
                    evicted = Some(e.handle);
                },
                None => {
                    // the registry can only be full here if no entry was
                    // taken out for the node, so nothing has changed yet
                    assert(found is None);
                    return Err(Error::AtCapacity);
                },
            }
        }
        match superseded {
            Some(h) => {
                self.canceled.push(h);
            },
            None => {},
        }
        match evicted {
            Some(h) => {
                self.canceled.push(h);
            },
            None => {},
        }
        let entry = PeerEntry { id: node_id, handle, state: PeerState::Connecting(options) };
        proof {
            lemma_push_unique(self.entries@, entry);
            assert(self.canceled@ =~= d0 + released(s0, self.capacity as nat, node_id));
        }
        self.entries.push(entry);
        Ok(())
    }

    /// The connection to `node_id` has become usable: a connecting entry
    /// turns into a connected one, and what was pending in its options is
    /// queued for delivery. Returns whether there was such an entry.
    pub fn establish(&mut self, node_id: NodeId) -> (r: bool)
        requires
            old(self).wf(),
        ensures
            final(self).wf(),
            final(self).limit() == old(self).limit(),
            final(self).dropped() == old(self).dropped(),
            r == (has_entry(old(self).entries(), node_id) && !old(self).is_connected(node_id)),
            !r ==> final(self).entries() == old(self).entries() && final(self).queued() == old(self).queued(),
            r ==> {
                let p = position(old(self).entries(), node_id);
                let e = old(self).entries()[p];
                &&& e.state is Connecting
                &&& final(self).entries() == old(self).entries().update(
                    p,
                    PeerEntry { id: node_id, handle: e.handle, state: PeerState::Connected },
                )
                &&& final(self).queued() == old(self).queued() + pending_deliveries(node_id, e.state->Connecting_0)
                &&& final(self).is_connected(node_id)
            },
    {
        let ghost s0 = self.entries@;
        let ghost q0 = self.outbound@;
        match self.find(node_id) {
            None => false,
            Some(i) => {
                proof {
                    lemma_position(s0, i as int);
                }
                let live = match &self.entries[i].state {
                    PeerState::Connected => true,
                    PeerState::Connecting(_) => false,
                };
                if live {
                    return false;
                }
                let handle = self.entries[i].handle;
                let fresh = PeerEntry { id: node_id, handle, state: PeerState::Connected };
                self.entries.push(fresh);
                let e = self.entries.swap_remove(i);
                assert(self.entries@ =~= s0.update(i as int, fresh));
                match e.state {
                    PeerState::Connected => {},
                    PeerState::Connecting(options) => {
                        match options.pending_block_announcement {
                            Some(h) => {
                                self.outbound.push(Delivery { to: node_id, msg: Outbound::Block(h) });
                            },
                            None => {},
                        }
                        match options.pending_fragment {
                            Some(f) => {
                                self.outbound.push(Delivery { to: node_id, msg: Outbound::Fragment(f) });
                            },
                            None => {},
                        }
                        match options.pending_gossip {
                            Some(g) => {
                                self.outbound.push(Delivery { to: node_id, msg: Outbound::Gossip(g) });
                            },
                            None => {},
                        }
                        assert(self.outbound@ =~= q0 + pending_deliveries(node_id, options));
                    },
                }
                proof {
                    let s1 = self.entries@;
                    assert forall|a: int, b: int| 0 <= a < b < s1.len() implies s1[a].id != s1[b].id by {
                        assert(s1[a].id == s0[a].id && s1[b].id == s0[b].id);
                    }
                    assert(s1[i as int].id == node_id && s1[i as int].state is Connected);
                }
                true
            },
        }
    }

    /// Whether the entry for `node_id` is the one registered under `handle`.
    pub fn holds(&self, node_id: NodeId, handle: ConnectHandle) -> (r: bool)
        requires
            self.wf(),
        ensures
            r == held_by(self.entries(), node_id, handle),
    {
        match self.find(node_id) {
            None => false,
            Some(i) => {
                proof {
                    lemma_position(self.entries(), i as int);
                }
                self.entries[i].handle == handle
            },
        }
    }

    /// The connection registered for `node_id` under `handle` is over: its
    /// entry goes, if the registry still holds it. An entry that the node
    /// has under another handle stays. Nothing is canceled. Returns whether
    /// the entry went.
    pub fn release(&mut self, node_id: NodeId, handle: ConnectHandle) -> (r: bool)
        requires
            old(self).wf(),
        ensures
            final(self).wf(),
            final(self).limit() == old(self).limit(),
            final(self).queued() == old(self).queued(),
            final(self).dropped() == old(self).dropped(),
            r == held_by(old(self).entries(), node_id, handle),
            final(self).entries() == (if r {
                without(old(self).entries(), node_id)
            } else {
                old(self).entries()
            }),
    {
        match self.find(node_id) {
            None => false,
            Some(i) => {
                proof {
                    lemma_position(self.entries(), i as int);
                }
                if self.entries[i].handle == handle {
                    self.entries.remove(i);
                    true
                } else {
                    false
                }
            },
        }
    }

    /// Drops the entry for `node_id`, if there is one, and its handle with
    /// it. Returns whether there was one.
    pub fn remove_peer(&mut self, node_id: NodeId) -> (r: bool)
        requires
            old(self).wf(),
        ensures
            final(self).wf(),
            final(self).limit() == old(self).limit(),
            final(self).queued() == old(self).queued(),
            r == has_entry(old(self).entries(), node_id),
            final(self).entries() == without(old(self).entries(), node_id),
            final(self).dropped() == old(self).dropped() + handle_of(old(self).entries(), node_id),
            !has_entry(final(self).entries(), node_id),
    {
        let ghost d0 = self.canceled@;
        match self.find(node_id) {
            None => {
                assert(self.canceled@ =~= d0 + handle_of(self.entries@, node_id));
                false
            },
            Some(i) => {
                proof {
                    lemma_position(self.entries@, i as int);
                }
                let e = self.entries.remove(i);
                self.canceled.push(e.handle);
                assert(self.canceled@ =~= d0 + seq![e.handle]);
                true
            },
        }
    }

    /// Asks the oldest connected peer for the blocks `ids`.
    pub fn fetch_blocks(&mut self, ids: Vec<HeaderHash>) -> (res: Result<(), Error>)
        requires
            old(self).wf(),
        ensures
            final(self).wf(),
            final(self).limit() == old(self).limit(),
            final(self).entries() == old(self).entries(),
            final(self).dropped() == old(self).dropped(),
            res is Ok <==> any_connected(old(self).entries()),
            match res {
                Ok(()) => final(self).queued() == old(self).queued().push(
                    Delivery { to: first_connected(old(self).entries()), msg: Outbound::FetchBlocks(ids) },
                ),
                Err(e) => e == Error::NoRoute && final(self).queued() == old(self).queued(),
            },
    {
        match self.find_connected() {
            None => Err(Error::NoRoute),
            Some(i) => {
                proof {
                    lemma_first_connected(self.entries@, i as int);
                }
                let to = self.entries[i].id;
                self.outbound.push(Delivery { to, msg: Outbound::FetchBlocks(ids) });
                Ok(())
            },
        }
    }

    /// Queues `msg` for `node_id` if the node has a live connection, and
    /// hands it back if not.
    fn send_to(&mut self, node_id: NodeId, msg: Outbound) -> (res: Result<(), Outbound>)
        requires
            old(self).wf(),
        ensures
            final(self).wf(),
            final(self).limit() == old(self).limit(),
            final(self).entries() == old(self).entries(),
            final(self).dropped() == old(self).dropped(),
            res is Ok <==> old(self).is_connected(node_id),
            match res {
                Ok(()) => final(self).queued() == old(self).queued().push(Delivery { to: node_id, msg }),
                Err(m) => m == msg && final(self).queued() == old(self).queued(),
            },
    {
        if self.connected(node_id) {
            self.outbound.push(Delivery { to: node_id, msg });
            Ok(())
        } else {
            Err(msg)
        }
    }

    /// Asks the peer `node_id` for the blocks `ids`.
    pub fn solicit_blocks(&mut self, node_id: NodeId, ids: Vec<HeaderHash>) -> (res: Result<(), Error>)
        requires
            old(self).wf(),
        ensures
            final(self).wf(),
            final(self).limit() == old(self).limit(),
            final(self).entries() == old(self).entries(),
            final(self).dropped() == old(self).dropped(),
            res is Ok <==> old(self).is_connected(node_id),
            match res {
                Ok(()) => final(self).queued() == old(self).queued().push(
                    Delivery { to: node_id, msg: Outbound::SolicitBlocks(ids) },
                ),
                Err(e) => e == Error::PeerUnknown(node_id) && final(self).queued() == old(self).queued(),
            },
    {
        match self.send_to(node_id, Outbound::SolicitBlocks(ids)) {
            Ok(()) => Ok(()),
            Err(_) => Err(Error::PeerUnknown(node_id)),
        }
    }

    /// Asks the peer `node_id` for the headers between `from` and `to`.
    pub fn pull_headers(&mut self, node_id: NodeId, from: Vec<HeaderHash>, to: HeaderHash) -> (res: Result<(), Error>)
        requires
            old(self).wf(),
        ensures
            final(self).wf(),
            final(self).limit() == old(self).limit(),
            final(self).entries() == old(self).entries(),
            final(self).dropped() == old(self).dropped(),
            res is Ok <==> old(self).is_connected(node_id),
            match res {
                Ok(()) => final(self).queued() == old(self).queued().push(
                    Delivery { to: node_id, msg: Outbound::PullHeaders { from, to } },
                ),
                Err(e) => e == Error::PeerUnknown(node_id) && final(self).queued() == old(self).queued(),
            },
    {
        match self.send_to(node_id, Outbound::PullHeaders { from, to }) {
            Ok(()) => Ok(()),
            Err(_) => Err(Error::PeerUnknown(node_id)),
        }
    }

    /// Sends `gossip` to the peer `node_id`, or hands it back where the node
    /// has no live connection.
    pub fn propagate_gossip_to(&mut self, node_id: NodeId, gossip: Gossip) -> (res: Result<(), Gossip>)
        requires
            old(self).wf(),
        ensures
            final(self).wf(),
            final(self).limit() == old(self).limit(),
            final(self).entries() == old(self).entries(),
            final(self).dropped() == old(self).dropped(),
            res is Ok <==> old(self).is_connected(node_id),
            match res {
                Ok(()) => final(self).queued() == old(self).queued().push(
                    Delivery { to: node_id, msg: Outbound::Gossip(gossip) },
                ),
                Err(g) => g == gossip && final(self).queued() == old(self).queued(),
            },
    {
        if self.connected(node_id) {
            self.outbound.push(Delivery { to: node_id, msg: Outbound::Gossip(gossip) });
            Ok(())
        } else {
            Err(gossip)
        }
    }

    /// Queues the item for every node of `peer_list` that has a live
    /// connection, and returns the others.
    pub fn propagate(&mut self, peer_list: &Vec<Node>, msg: PropagateMsg) -> (res: Result<(), Vec<Node>>)
        requires
            old(self).wf(),
        ensures
            final(self).wf(),
            final(self).limit() == old(self).limit(),
            final(self).entries() == old(self).entries(),
            final(self).dropped() == old(self).dropped(),
            final(self).queued() == old(self).queued() + deliveries_to(
                reachable(old(self).entries(), peer_list@),
                outbound_of(msg),
            ),
            res is Ok <==> out_of_reach(old(self).entries(), peer_list@).len() == 0,
            match res {
                Ok(()) => true,
                Err(unreached) => unreached@ == out_of_reach(old(self).entries(), peer_list@),
            },
    {
        let ghost s0 = self.entries@;
        let ghost q0 = self.outbound@;
        let mut unreached: Vec<Node> = Vec::new();
        let mut k: usize = 0;
        proof {
            reveal(Seq::filter);
            assert(peer_list@.take(0) =~= Seq::<Node>::empty());
            assert(self.outbound@ =~= q0 + deliveries_to(reachable(s0, peer_list@.take(0)), outbound_of(msg)));
        }
        while k < peer_list.len()
            invariant
                k <= peer_list@.len(),
                self.wf(),
                self.entries@ == s0,
                self.capacity == old(self).capacity,
                self.canceled@ == old(self).canceled@,
                self.outbound@ == q0 + deliveries_to(reachable(s0, peer_list@.take(k as int)), outbound_of(msg)),
                unreached@ == out_of_reach(s0, peer_list@.take(k as int)),
            decreases peer_list@.len() - k,
        {
            let node = peer_list[k];
            proof {
                lemma_filter_step(s0, peer_list@, k as int);
            }
            if self.connected(node.id) {
                let item = match msg {
                    PropagateMsg::Block(h) => Outbound::Block(h),
                    PropagateMsg::Fragment(f) => Outbound::Fragment(f),
                };
                self.outbound.push(Delivery { to: node.id, msg: item });
                assert(self.outbound@ =~= q0 + deliveries_to(
                    reachable(s0, peer_list@.take(k as int + 1)),
                    outbound_of(msg),
                ));
            } else {
                unreached.push(node);
            }
            k += 1;
        }
        assert(peer_list@.take(k as int) =~= peer_list@);
        if unreached.len() == 0 {
            Ok(())
        } else {
            Err(unreached)
        }
    }

    /// Announces the block `header` to every node of `peer_list` that has a
    /// live connection, and returns the nodes that have none.
    pub fn propagate_block(&mut self, peer_list: &Vec<Node>, header: Header) -> (res: Result<(), Vec<Node>>)
        requires
            old(self).wf(),
        ensures
            final(self).wf(),
            final(self).limit() == old(self).limit(),
            final(self).entries() == old(self).entries(),
            final(self).dropped() == old(self).dropped(),
            final(self).queued() == old(self).queued() + deliveries_to(
                reachable(old(self).entries(), peer_list@),
                Outbound::Block(header),
            ),
            res is Ok <==> out_of_reach(old(self).entries(), peer_list@).len() == 0,
            match res {
                Ok(()) => true,
                Err(unreached) => unreached@ == out_of_reach(old(self).entries(), peer_list@),
            },
    {
        self.propagate(peer_list, PropagateMsg::Block(header))
    }

    /// Sends the fragment to every node of `peer_list` that has a live
    /// connection, and returns the nodes that have none.
    pub fn propagate_fragment(&mut self, peer_list: &Vec<Node>, fragment: Fragment) -> (res: Result<(), Vec<Node>>)
        requires
            old(self).wf(),
        ensures
            final(self).wf(),
            final(self).limit() == old(self).limit(),
            final(self).entries() == old(self).entries(),
            final(self).dropped() == old(self).dropped(),
            final(self).queued() == old(self).queued() + deliveries_to(
                reachable(old(self).entries(), peer_list@),
                Outbound::Fragment(fragment),
            ),
            res is Ok <==> out_of_reach(old(self).entries(), peer_list@).len() == 0,
            match res {
                Ok(()) => true,
                Err(unreached) => unreached@ == out_of_reach(old(self).entries(), peer_list@),
            },
    {
        self.propagate(peer_list, PropagateMsg::Fragment(fragment))
    }

    /// A snapshot of the entries, oldest first.
    pub fn infos(&self) -> (r: Vec<PeerInfo>)
        ensures
            r@.len() == self.entries().len(),
            forall|i: int| 0 <= i < r@.len() ==> #[trigger] r@[i] == info_of(self.entries()[i]),
    {
        let mut out: Vec<PeerInfo> = Vec::new();
        let mut i: usize = 0;
        while i < self.entries.len()
            invariant
                i <= self.entries@.len(),
                out@.len() == i,
                forall|k: int| 0 <= k < i ==> #[trigger] out@[k] == info_of(self.entries@[k]),
            decreases self.entries@.len() - i,
        {
            let connected = match &self.entries[i].state {
                PeerState::Connected => true,
                PeerState::Connecting(_) => false,
            };
            out.push(PeerInfo { id: self.entries[i].id, connected });
            i += 1;
        }
        out
    }
}

} // verus!
