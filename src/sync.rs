use vstd::prelude::*;
use crate::chain::{chain_has, BlockId, ChainView, Header};
use crate::config::SyncConfig;
use crate::peer::{in_flight_has, in_flight_unique, InFlightBlock, PeerContext, PeerId, ProtocolVersion};

verus! {

/// An entry of the node-wide set of requested blocks: the block and the peer it is asked from.
#[derive(Debug, Clone, Copy, PartialEq, Eq, Structural)]
pub struct GlobalInFlight {
    pub id: BlockId,
    pub peer: PeerId,
}

/// True when block `id` is requested from some peer.
pub open spec fn global_has(g: Seq<GlobalInFlight>, id: BlockId) -> bool {
    exists|j: int| 0 <= j < g.len() && #[trigger] g[j].id == id
}

/// True when block `id` is recorded as requested from peer `peer`.
pub open spec fn claimed(g: Seq<GlobalInFlight>, id: BlockId, peer: PeerId) -> bool {
    exists|j: int| 0 <= j < g.len() && #[trigger] g[j].id == id && g[j].peer == peer
}

pub open spec fn global_unique(g: Seq<GlobalInFlight>) -> bool {
    forall|a: int, b: int|
        0 <= a < g.len() && 0 <= b < g.len() && a != b ==> #[trigger] g[a].id != #[trigger] g[b].id
}

pub open spec fn peer_ids_unique(p: Seq<PeerContext>) -> bool {
    forall|a: int, b: int|
        0 <= a < p.len() && 0 <= b < p.len() && a != b ==> #[trigger] p[a].peer_id
            != #[trigger] p[b].peer_id
}

/// No peer has more than `max` blocks in flight.
pub open spec fn in_flight_bounded(p: Seq<PeerContext>, max: usize) -> bool {
    forall|i: int| 0 <= i < p.len() ==> #[trigger] p[i].blocks_in_flight@.len() <= max
}

pub open spec fn in_flight_distinct(p: Seq<PeerContext>) -> bool {
    forall|i: int| 0 <= i < p.len() ==> in_flight_unique(#[trigger] p[i].blocks_in_flight@)
}

/// Every block in flight from a peer is recorded in the node-wide set under that peer.
pub open spec fn in_flight_claimed(p: Seq<PeerContext>, g: Seq<GlobalInFlight>) -> bool {
    forall|i: int, k: int|
        0 <= i < p.len() && 0 <= k < p[i].blocks_in_flight@.len() ==> claimed(
            g,
            #[trigger] p[i].blocks_in_flight@[k].id,
            p[i].peer_id,
        )
}

/// True when `e` is among the blocks in flight of the peer it names.
pub open spec fn owned(p: Seq<PeerContext>, e: GlobalInFlight) -> bool {
    exists|i: int|
        0 <= i < p.len() && #[trigger] p[i].peer_id == e.peer && in_flight_has(
            p[i].blocks_in_flight@,
            e.id,
        )
}

/// Every entry of the node-wide set is in flight from the peer it names: the set is the union
/// of the peers' blocks in flight.
pub open spec fn global_owned(p: Seq<PeerContext>, g: Seq<GlobalInFlight>) -> bool {
    forall|j: int| 0 <= j < g.len() ==> owned(p, #[trigger] g[j])
}

/// The entries a block request adds to a peer's blocks in flight.
pub open spec fn requested(ids: Seq<BlockId>, now: u64) -> Seq<InFlightBlock> {
    ids.map(|_k: int, id: BlockId| InFlightBlock { id: id, requested_at: now })
}

/// The entries a block request adds to the node-wide set.
pub open spec fn claims_of(ids: Seq<BlockId>, peer: PeerId) -> Seq<GlobalInFlight> {
    ids.map(|_k: int, id: BlockId| GlobalInFlight { id: id, peer: peer })
}

/// A pending header is passed over when its block is already local, already requested,
/// or already picked.
pub open spec fn passed_over(
    h: Header,
    chain: Seq<Header>,
    g: Seq<GlobalInFlight>,
    picked: Seq<BlockId>,
) -> bool {
    chain_has(chain, h.id) || global_has(g, h.id) || picked.contains(h.id)
}

/// A pending header can be requested when its parent is local or picked before it.
pub open spec fn parent_ready(h: Header, chain: Seq<Header>, picked: Seq<BlockId>) -> bool {
    chain_has(chain, h.prev) || picked.contains(h.prev)
}

/// The walk of the download scheduler over `pending` from position `i`, with `picked` chosen
/// so far: the blocks it requests and the position where it stops.
pub open spec fn select_blocks(
    pending: Seq<Header>,
    chain: Seq<Header>,
    g: Seq<GlobalInFlight>,
    slots: int,
    i: int,
    picked: Seq<BlockId>,
) -> (Seq<BlockId>, int)
    decreases pending.len() - i,
{
    if i < 0 || i >= pending.len() {
        (picked, i)
    } else if passed_over(pending[i], chain, g, picked) {
        select_blocks(pending, chain, g, slots, i + 1, picked)
    } else if picked.len() < slots && parent_ready(pending[i], chain, picked) {
        select_blocks(pending, chain, g, slots, i + 1, picked.push(pending[i].id))
    } else {
        (picked, i)
    }
}

/// True when the request for `e` is older than `timeout` at time `now`.
pub open spec fn stalled(e: InFlightBlock, now: u64, timeout: u64) -> bool {
    now > e.requested_at && now - e.requested_at > timeout
}

/// Id membership in a list of block ids.
pub fn contains_id(v: &Vec<BlockId>, id: BlockId) -> (r: bool)
    ensures
        r == v@.contains(id),
{
    let mut k: usize = 0;
    while k < v.len()
        invariant
            k <= v@.len(),
            forall|j: int| 0 <= j < k ==> v@[j] != id,
        decreases v@.len() - k,
    {
        if v[k] == id {
            return true;
        }
        k = k + 1;
    }
    false
}

/// Block synchronisation state of the node: one context per connected peer, and the
/// node-wide set of blocks in flight, which keeps two peers from downloading the same block.
pub struct SyncManager {
    pub config: SyncConfig,
    pub peers: Vec<PeerContext>,
    pub globally_in_flight: Vec<GlobalInFlight>,
}

impl SyncManager {
    pub open spec fn wf(&self) -> bool {
        &&& self.config.wf()
        &&& peer_ids_unique(self.peers@)
        &&& in_flight_bounded(self.peers@, self.config.max_request_blocks_count)
        &&& in_flight_distinct(self.peers@)
        &&& in_flight_claimed(self.peers@, self.globally_in_flight@)
        &&& global_owned(self.peers@, self.globally_in_flight@)
        &&& global_unique(self.globally_in_flight@)
    }

    pub open spec fn has_peer(&self, id: PeerId) -> bool {
        exists|i: int| 0 <= i < self.peers@.len() && #[trigger] self.peers@[i].peer_id == id
    }

    /// The peers other than the one at `pi` are as they were.
    pub open spec fn others_kept(&self, old: &SyncManager, pi: int) -> bool {
        &&& self.peers@.len() == old.peers@.len()
        &&& forall|j: int| 0 <= j < self.peers@.len() && j != pi ==> #[trigger] self.peers@[j] == old.peers@[j]
    }

    /// No peer's best known block went down.
    pub open spec fn best_known_kept(&self, old: &SyncManager) -> bool {
        &&& self.peers@.len() == old.peers@.len()
        &&& forall|j: int|
            0 <= j < self.peers@.len() ==> crate::peer::best_height(
                old.peers@[j].best_known_block,
            ) <= crate::peer::best_height(#[trigger] self.peers@[j].best_known_block)
    }

    /// A manager with no peers.
    pub fn new(config: SyncConfig) -> (r: SyncManager)
        requires
            config.wf(),
        ensures
            r.wf(),
            r.config == config,
            r.peers@.len() == 0,
            r.globally_in_flight@.len() == 0,
    {
        SyncManager { config, peers: Vec::new(), globally_in_flight: Vec::new() }
    }

    /// Position of peer `id` among the connected peers.
    pub fn peer_index(&self, id: PeerId) -> (r: Option<usize>)
        ensures
            match r {
                Some(i) => i < self.peers@.len() && self.peers@[i as int].peer_id == id,
                None => !self.has_peer(id),
            },
    {
        let mut i: usize = 0;
        while i < self.peers.len()
            invariant
                i <= self.peers@.len(),
                forall|j: int| 0 <= j < i ==> self.peers@[j].peer_id != id,
            decreases self.peers@.len() - i,
        {
            if self.peers[i].peer_id == id {
                return Some(i);
            }
            i = i + 1;
        }
        None
    }

    /// Registers a newly connected peer; refused when the id is already connected.
    pub fn add_peer(&mut self, id: PeerId, version: ProtocolVersion, now: u64) -> (r: bool)
        requires
            old(self).wf(),
        ensures
            final(self).wf(),
            r == !old(self).has_peer(id),
            r ==> final(self).peers@.len() == old(self).peers@.len() + 1 && final(self).peers@.drop_last()
                == old(self).peers@ && final(self).peers@.last().peer_id == id
                && final(self).peers@.last().protocol_version == version
                && final(self).peers@.last().best_known_block.is_none()
                && final(self).peers@.last().blocks_in_flight@.len() == 0
                && final(self).peers@.last().pending_headers@.len() == 0,
            !r ==> final(self).peers@ == old(self).peers@,
            final(self).globally_in_flight@ == old(self).globally_in_flight@,
            final(self).config == old(self).config,
    {
        if self.peer_index(id).is_some() {
            return false;
        }
        let ctx = PeerContext::new(id, version, now);
        self.peers.push(ctx);
        assert(self.peers@.drop_last() =~= old(self).peers@);
        let ghost p = self.peers@;
        assert forall|a: int, b: int|
            0 <= a < p.len() && 0 <= b < p.len() && a != b implies #[trigger] p[a].peer_id
            != #[trigger] p[b].peer_id by {
            if a < p.len() - 1 && b < p.len() - 1 {
                assert(p[a] == old(self).peers@[a]);
                assert(p[b] == old(self).peers@[b]);
            } else if a < p.len() - 1 {
                assert(p[a] == old(self).peers@[a]);
            } else {
                assert(p[b] == old(self).peers@[b]);
            }
        }
        assert forall|i: int, k: int|
            0 <= i < p.len() && 0 <= k < p[i].blocks_in_flight@.len() implies claimed(
            self.globally_in_flight@,
            #[trigger] p[i].blocks_in_flight@[k].id,
            p[i].peer_id,
        ) by {
            assert(p[i] == old(self).peers@[i]);
        }
        assert forall|i: int| 0 <= i < p.len() implies #[trigger] p[i].blocks_in_flight@.len()
            <= self.config.max_request_blocks_count by {
            if i < p.len() - 1 {
                assert(p[i] == old(self).peers@[i]);
            }
        }
        assert forall|i: int| 0 <= i < p.len() implies in_flight_unique(
            #[trigger] p[i].blocks_in_flight@,
        ) by {
            if i < p.len() - 1 {
                assert(p[i] == old(self).peers@[i]);
            }
        }
        true
    }

    /// True when block `id` is requested from any peer.
    pub fn is_in_flight(&self, id: BlockId) -> (r: bool)
        ensures
            r == global_has(self.globally_in_flight@, id),
    {
        let mut k: usize = 0;
        while k < self.globally_in_flight.len()
            invariant
                k <= self.globally_in_flight@.len(),
                forall|j: int| 0 <= j < k ==> self.globally_in_flight@[j].id != id,
            decreases self.globally_in_flight@.len() - k,
        {
            if self.globally_in_flight[k].id == id {
                return true;
            }
            k = k + 1;
        }
        false
    }

    /// Requests from peer `pi` the pending headers' blocks that fit its free slots: pending
    /// headers are walked in order, those already local or requested are dropped, and the walk
    /// stops at the first header whose parent is neither local nor just picked. Every picked
    /// block enters the peer's and the node-wide blocks in flight, stamped with `now`.
    pub fn schedule(&mut self, pi: usize, chain: &ChainView, now: u64) -> (r: Vec<BlockId>)
        requires
            old(self).wf(),
            chain.wf(),
            pi < old(self).peers@.len(),
        ensures
            final(self).wf(),
            ({
                let pre = old(self).peers@[pi as int];
                let sel = select_blocks(
                    pre.pending_headers@,
                    chain@,
                    old(self).globally_in_flight@,
                    old(self).config.max_request_blocks_count - pre.blocks_in_flight@.len(),
                    0,
                    seq![],
                );
                let post = final(self).peers@[pi as int];
                &&& r@ == sel.0
                &&& post.pending_headers@ == pre.pending_headers@.subrange(
                    sel.1,
                    pre.pending_headers@.len() as int,
                )
                &&& post.blocks_in_flight@ == pre.blocks_in_flight@ + requested(r@, now)
                &&& final(self).globally_in_flight@ == old(self).globally_in_flight@ + claims_of(
                    r@,
                    pre.peer_id,
                )
                &&& post.peer_id == pre.peer_id
                &&& post.protocol_version == pre.protocol_version
                &&& post.state == pre.state
                &&& post.best_known_block == pre.best_known_block
                &&& post.known_headers_sent == pre.known_headers_sent
                &&& post.singular_unconnected_headers_count == pre.singular_unconnected_headers_count
                &&& post.last_activity_at == pre.last_activity_at
            }),
            final(self).others_kept(old(self), pi as int),
            final(self).best_known_kept(old(self)),
            final(self).config == old(self).config,
            forall|k: int|
                0 <= k < r@.len() ==> !chain_has(chain@, #[trigger] r@[k]) && !global_has(
                    old(self).globally_in_flight@,
                    r@[k],
                ),
    {
        let ghost g0 = self.globally_in_flight@;
        let ghost peers0 = self.peers@;
        let mut peer = self.peers.remove(pi);
        let ghost rest_peers = self.peers@;
        let ghost pend = peer.pending_headers@;
        let ghost bif0 = peer.blocks_in_flight@;
        assert(peer == peers0[pi as int]);
        let max = self.config.max_request_blocks_count;
        assert(peer.blocks_in_flight@.len() <= max) by {
            assert(peers0[pi as int] == peer);
        }
        let slots: usize = max - peer.blocks_in_flight.len();
        let mut picked: Vec<BlockId> = Vec::new();
        let mut i: usize = 0;
        let mut done = false;
        while i < peer.pending_headers.len() && !done
            invariant
                chain.wf(),
                self.globally_in_flight@ == g0,
                self.peers@ == rest_peers,
                self.config == old(self).config,
                rest_peers.len() + 1 == peers0.len(),
                peer.pending_headers@ == pend,
                i <= pend.len(),
                picked@.len() <= slots,
                select_blocks(pend, chain@, g0, slots as int, 0, seq![]) == select_blocks(
                    pend,
                    chain@,
                    g0,
                    slots as int,
                    i as int,
                    picked@,
                ),
                done ==> select_blocks(pend, chain@, g0, slots as int, i as int, picked@) == (
                picked@,
                i as int,
                ),
                forall|k: int|
                    0 <= k < picked@.len() ==> !chain_has(chain@, #[trigger] picked@[k])
                        && !global_has(g0, picked@[k]),
                forall|a: int, b: int|
                    0 <= a < picked@.len() && 0 <= b < picked@.len() && a != b ==> #[trigger] picked@[a]
                        != #[trigger] picked@[b],
            decreases pend.len() - i + (if done {
                0int
            } else {
                1int
            }),
        {
            let h = peer.pending_headers[i];
            let skip = chain.find(h.id).is_some() || self.is_in_flight(h.id) || contains_id(
                &picked,
                h.id,
            );
            if skip {
                i = i + 1;
            } else if picked.len() < slots && (chain.find(h.prev).is_some() || contains_id(
                &picked,
                h.prev,
            )) {
                let ghost before = picked@;
                picked.push(h.id);
                assert forall|a: int, b: int|
                    0 <= a < picked@.len() && 0 <= b < picked@.len() && a != b implies #[trigger] picked@[a]
                    != #[trigger] picked@[b] by {
                    if a < before.len() && b < before.len() {
                        assert(picked@[a] == before[a]);
                        assert(picked@[b] == before[b]);
                    } else if a < before.len() {
                        assert(picked@[a] == before[a]);
                        assert(before.contains(before[a]));
                    } else {
                        assert(picked@[b] == before[b]);
                        assert(before.contains(before[b]));
                    }
                }
                assert forall|k: int| 0 <= k < picked@.len() implies !chain_has(
                    chain@,
                    #[trigger] picked@[k],
                ) && !global_has(g0, picked@[k]) by {
                    if k < before.len() {
                        assert(picked@[k] == before[k]);
                    }
                }
                i = i + 1;
            } else {
                done = true;
            }
        }
        let stop = i;
        let ghost sel = select_blocks(pend, chain@, g0, slots as int, 0, seq![]);
        assert(sel == (picked@, stop as int));
        let mut rest: Vec<Header> = Vec::new();
        let mut j: usize = stop;
        while j < peer.pending_headers.len()
            invariant
                peer.pending_headers@ == pend,
                self.peers@ == rest_peers,
                self.config == old(self).config,
                self.globally_in_flight@ == g0,
                stop <= j <= pend.len(),
                rest@ == pend.subrange(stop as int, j as int),
            decreases pend.len() - j,
        {
            rest.push(peer.pending_headers[j]);
            assert(rest@ =~= pend.subrange(stop as int, j + 1));
            j = j + 1;
        }
        peer.pending_headers = rest;
        let pid = peer.peer_id;
        let mut n: usize = 0;
        while n < picked.len()
            invariant
                self.peers@ == rest_peers,
                self.config == old(self).config,
                rest_peers.len() + 1 == peers0.len(),
                pi < peers0.len(),
                n <= picked@.len(),
                peer.blocks_in_flight@ == bif0 + requested(picked@.subrange(0, n as int), now),
                self.globally_in_flight@ == g0 + claims_of(picked@.subrange(0, n as int), pid),
                peer.peer_id == pid,
                peer.pending_headers@ == pend.subrange(stop as int, pend.len() as int),
                peer.protocol_version == peers0[pi as int].protocol_version,
                peer.state == peers0[pi as int].state,
                peer.best_known_block == peers0[pi as int].best_known_block,
                peer.known_headers_sent == peers0[pi as int].known_headers_sent,
                peer.singular_unconnected_headers_count
                    == peers0[pi as int].singular_unconnected_headers_count,
                peer.last_activity_at == peers0[pi as int].last_activity_at,
            decreases picked@.len() - n,
        {
            let id = picked[n];
            peer.blocks_in_flight.push(InFlightBlock { id, requested_at: now });
            self.globally_in_flight.push(GlobalInFlight { id, peer: pid });
            assert(picked@.subrange(0, n + 1) =~= picked@.subrange(0, n as int).push(id));
            assert(requested(picked@.subrange(0, n + 1), now) =~= requested(
                picked@.subrange(0, n as int),
                now,
            ).push(InFlightBlock { id, requested_at: now }));
            assert(claims_of(picked@.subrange(0, n + 1), pid) =~= claims_of(
                picked@.subrange(0, n as int),
                pid,
            ).push(GlobalInFlight { id, peer: pid }));
            assert(peer.blocks_in_flight@ =~= bif0 + requested(picked@.subrange(0, n + 1), now));
            assert(self.globally_in_flight@ =~= g0 + claims_of(picked@.subrange(0, n + 1), pid));
            n = n + 1;
        }
        assert(picked@.subrange(0, picked@.len() as int) =~= picked@);
        self.peers.insert(pi, peer);
        assert(self.peers@ =~= peers0.update(pi as int, peer));
        proof {
            self.lemma_schedule_keeps_wf(old(self), pi as int, picked@, now);
        }
        picked
    }

    proof fn lemma_schedule_keeps_wf(&self, old: &SyncManager, pi: int, picked: Seq<BlockId>, now: u64)
        requires
            old.wf(),
            0 <= pi < old.peers@.len(),
            self.config == old.config,
            self.peers@.len() == old.peers@.len(),
            forall|j: int| 0 <= j < self.peers@.len() && j != pi ==> #[trigger] self.peers@[j] == old.peers@[j],
            self.peers@[pi].peer_id == old.peers@[pi].peer_id,
            self.peers@[pi].blocks_in_flight@ == old.peers@[pi].blocks_in_flight@ + requested(picked, now),
            self.globally_in_flight@ == old.globally_in_flight@ + claims_of(picked, old.peers@[pi].peer_id),
            old.peers@[pi].blocks_in_flight@.len() + picked.len() <= old.config.max_request_blocks_count,
            forall|k: int| 0 <= k < picked.len() ==> !global_has(old.globally_in_flight@, #[trigger] picked[k]),
            forall|a: int, b: int|
                0 <= a < picked.len() && 0 <= b < picked.len() && a != b ==> #[trigger] picked[a]
                    != #[trigger] picked[b],
        ensures
            self.wf(),
    {
        let p = self.peers@;
        let g = self.globally_in_flight@;
        let g0 = old.globally_in_flight@;
        let pid = old.peers@[pi].peer_id;
        let b0 = old.peers@[pi].blocks_in_flight@;
        assert forall|a: int, b: int|
            0 <= a < p.len() && 0 <= b < p.len() && a != b implies #[trigger] p[a].peer_id
            != #[trigger] p[b].peer_id by {
            assert(old.peers@[a].peer_id != old.peers@[b].peer_id);
        }
        assert forall|i: int| 0 <= i < p.len() implies #[trigger] p[i].blocks_in_flight@.len()
            <= self.config.max_request_blocks_count by {
            if i != pi {
                assert(p[i] == old.peers@[i]);
            }
        }
        // an old entry of `g0` with id `id` rules `id` out of `picked`
        assert forall|a: int, b: int|
            0 <= a < g.len() && 0 <= b < g.len() && a != b implies #[trigger] g[a].id
            != #[trigger] g[b].id by {
            if a < g0.len() && b < g0.len() {
            } else if a < g0.len() {
                assert(g[b].id == picked[b - g0.len()]);
                assert(global_has(g0, g[a].id));
            } else if b < g0.len() {
                assert(g[a].id == picked[a - g0.len()]);
                assert(global_has(g0, g[b].id));
            } else {
                assert(g[a].id == picked[a - g0.len()]);
                assert(g[b].id == picked[b - g0.len()]);
            }
        }
        assert forall|i: int, k: int|
            0 <= i < p.len() && 0 <= k < p[i].blocks_in_flight@.len() implies claimed(
            g,
            #[trigger] p[i].blocks_in_flight@[k].id,
            p[i].peer_id,
        ) by {
            if i != pi {
                assert(p[i] == old.peers@[i]);
                assert(claimed(g0, p[i].blocks_in_flight@[k].id, p[i].peer_id));
                let w = choose|w: int|
                    0 <= w < g0.len() && #[trigger] g0[w].id == p[i].blocks_in_flight@[k].id
                        && g0[w].peer == p[i].peer_id;
                assert(g[w] == g0[w]);
            } else if k < b0.len() {
                assert(p[i].blocks_in_flight@[k] == b0[k]);
                assert(claimed(g0, b0[k].id, pid));
                let w = choose|w: int|
                    0 <= w < g0.len() && #[trigger] g0[w].id == b0[k].id && g0[w].peer == pid;
                assert(g[w] == g0[w]);
            } else {
                let w = g0.len() + (k - b0.len());
                assert(g[w].id == picked[k - b0.len()]);
                assert(p[i].blocks_in_flight@[k].id == picked[k - b0.len()]);
            }
        }
        assert forall|i: int| 0 <= i < p.len() implies in_flight_unique(
            #[trigger] p[i].blocks_in_flight@,
        ) by {
            if i != pi {
                assert(p[i] == old.peers@[i]);
            } else {
                let s = p[i].blocks_in_flight@;
                assert forall|a: int, b: int|
                    0 <= a < s.len() && 0 <= b < s.len() && a != b implies #[trigger] s[a].id
                    != #[trigger] s[b].id by {
                    if a < b0.len() && b < b0.len() {
                        assert(s[a] == b0[a]);
                        assert(s[b] == b0[b]);
                        assert(in_flight_unique(old.peers@[pi].blocks_in_flight@));
                    } else if a < b0.len() {
                        assert(s[a] == b0[a]);
                        assert(s[b].id == picked[b - b0.len()]);
                        assert(claimed(g0, b0[a].id, pid));
                        assert(old.peers@[pi].blocks_in_flight@[a] == b0[a]);
                        assert(global_has(g0, b0[a].id));
                    } else if b < b0.len() {
                        assert(s[b] == b0[b]);
                        assert(s[a].id == picked[a - b0.len()]);
                        assert(old.peers@[pi].blocks_in_flight@[b] == b0[b]);
                        assert(claimed(g0, b0[b].id, pid));
                        assert(global_has(g0, b0[b].id));
                    } else {
                        assert(s[a].id == picked[a - b0.len()]);
                        assert(s[b].id == picked[b - b0.len()]);
                    }
                }
            }
        }
        assert forall|j: int| 0 <= j < g.len() implies owned(p, #[trigger] g[j]) by {
            if j < g0.len() {
                assert(g[j] == g0[j]);
                assert(owned(old.peers@, g0[j]));
                let i = choose|i: int|
                    0 <= i < old.peers@.len() && #[trigger] old.peers@[i].peer_id == g0[j].peer
                        && in_flight_has(old.peers@[i].blocks_in_flight@, g0[j].id);
                let s0 = old.peers@[i].blocks_in_flight@;
                let k = choose|k: int| 0 <= k < s0.len() && #[trigger] s0[k].id == g0[j].id;
                if i == pi {
                    assert(p[i].blocks_in_flight@[k] == s0[k]);
                } else {
                    assert(p[i] == old.peers@[i]);
                }
                assert(p[i].peer_id == g[j].peer);
                assert(in_flight_has(p[i].blocks_in_flight@, g[j].id));
            } else {
                let k = b0.len() + (j - g0.len());
                assert(p[pi].blocks_in_flight@[k].id == picked[j - g0.len()]);
                assert(g[j].id == picked[j - g0.len()]);
                assert(in_flight_has(p[pi].blocks_in_flight@, g[j].id));
                assert(p[pi].peer_id == g[j].peer);
            }
        }
    }

    /// Position of block `id` in the node-wide set of blocks in flight.
    fn global_index(&self, id: BlockId) -> (r: Option<usize>)
        ensures
            match r {
                Some(j) => j < self.globally_in_flight@.len() && self.globally_in_flight@[j as int].id
                    == id,
                None => !global_has(self.globally_in_flight@, id),
            },
    {
        let mut k: usize = 0;
        while k < self.globally_in_flight.len()
            invariant
                k <= self.globally_in_flight@.len(),
                forall|j: int| 0 <= j < k ==> self.globally_in_flight@[j].id != id,
            decreases self.globally_in_flight@.len() - k,
        {
            if self.globally_in_flight[k].id == id {
                return Some(k);
            }
            k = k + 1;
        }
        None
    }

    /// Takes the `k`-th block in flight of peer `pi` out of its blocks in flight and out of
    /// the node-wide set.
    pub fn release(&mut self, pi: usize, k: usize)
        requires
            old(self).wf(),
            pi < old(self).peers@.len(),
            k < old(self).peers@[pi as int].blocks_in_flight@.len(),
        ensures
            final(self).wf(),
            final(self).others_kept(old(self), pi as int),
            final(self).best_known_kept(old(self)),
            final(self).config == old(self).config,
            ({
                let pre = old(self).peers@[pi as int];
                let post = final(self).peers@[pi as int];
                let id = pre.blocks_in_flight@[k as int].id;
                &&& post.blocks_in_flight@ == pre.blocks_in_flight@.remove(k as int)
                &&& exists|gi: int|
                    0 <= gi < old(self).globally_in_flight@.len()
                        && #[trigger] old(self).globally_in_flight@[gi].id == id
                        && final(self).globally_in_flight@ == old(self).globally_in_flight@.remove(gi)
                &&& !global_has(final(self).globally_in_flight@, id)
                &&& post.peer_id == pre.peer_id
                &&& post.protocol_version == pre.protocol_version
                &&& post.state == pre.state
                &&& post.best_known_block == pre.best_known_block
                &&& post.pending_headers@ == pre.pending_headers@
                &&& post.known_headers_sent == pre.known_headers_sent
                &&& post.singular_unconnected_headers_count == pre.singular_unconnected_headers_count
                &&& post.last_activity_at == pre.last_activity_at
            }),
    {
        let ghost peers0 = self.peers@;
        let ghost g0 = self.globally_in_flight@;
        let id = self.peers[pi].blocks_in_flight[k].id;
        assert(claimed(g0, peers0[pi as int].blocks_in_flight@[k as int].id, peers0[pi as int].peer_id));
        let gi = match self.global_index(id) {
            Some(j) => j,
            None => {
                proof {
                    let w = choose|w: int|
                        0 <= w < g0.len() && #[trigger] g0[w].id == id && g0[w].peer
                            == peers0[pi as int].peer_id;
                    assert(global_has(g0, id));
                }
                0
            },
        };
        self.globally_in_flight.remove(gi);
        let mut peer = self.peers.remove(pi);
        peer.blocks_in_flight.remove(k);
        self.peers.insert(pi, peer);
        assert(self.peers@ =~= peers0.update(pi as int, peer));
        proof {
            self.lemma_release_keeps_wf(old(self), pi as int, k as int, gi as int);
        }
    }

    proof fn lemma_release_keeps_wf(&self, old: &SyncManager, pi: int, k: int, gi: int)
        requires
            old.wf(),
            0 <= pi < old.peers@.len(),
            0 <= k < old.peers@[pi].blocks_in_flight@.len(),
            0 <= gi < old.globally_in_flight@.len(),
            old.globally_in_flight@[gi].id == old.peers@[pi].blocks_in_flight@[k].id,
            self.config == old.config,
            self.peers@.len() == old.peers@.len(),
            forall|j: int| 0 <= j < self.peers@.len() && j != pi ==> #[trigger] self.peers@[j] == old.peers@[j],
            self.peers@[pi].peer_id == old.peers@[pi].peer_id,
            self.peers@[pi].blocks_in_flight@ == old.peers@[pi].blocks_in_flight@.remove(k),
            self.globally_in_flight@ == old.globally_in_flight@.remove(gi),
        ensures
            self.wf(),
            !global_has(self.globally_in_flight@, old.peers@[pi].blocks_in_flight@[k].id),
    {
        let p = self.peers@;
        let g = self.globally_in_flight@;
        let g0 = old.globally_in_flight@;
        let b0 = old.peers@[pi].blocks_in_flight@;
        let id = b0[k].id;
        assert forall|a: int, b: int|
            0 <= a < p.len() && 0 <= b < p.len() && a != b implies #[trigger] p[a].peer_id
            != #[trigger] p[b].peer_id by {
            assert(old.peers@[a].peer_id != old.peers@[b].peer_id);
        }
        assert forall|i: int| 0 <= i < p.len() implies #[trigger] p[i].blocks_in_flight@.len()
            <= self.config.max_request_blocks_count by {
            if i != pi {
                assert(p[i] == old.peers@[i]);
            } else {
                assert(old.peers@[i].blocks_in_flight@.len() <= self.config.max_request_blocks_count);
            }
        }
        assert forall|a: int, b: int|
            0 <= a < g.len() && 0 <= b < g.len() && a != b implies #[trigger] g[a].id
            != #[trigger] g[b].id by {
            let a0 = if a < gi { a } else { a + 1 };
            let b0_ = if b < gi { b } else { b + 1 };
            assert(g[a] == g0[a0]);
            assert(g[b] == g0[b0_]);
        }
        assert forall|j: int| 0 <= j < g.len() implies #[trigger] g[j].id != id by {
            let j0 = if j < gi { j } else { j + 1 };
            assert(g[j] == g0[j0]);
        }
        assert forall|i: int| 0 <= i < p.len() implies in_flight_unique(
            #[trigger] p[i].blocks_in_flight@,
        ) by {
            if i != pi {
                assert(p[i] == old.peers@[i]);
            } else {
                let s = p[i].blocks_in_flight@;
                assert(in_flight_unique(old.peers@[pi].blocks_in_flight@));
                assert forall|a: int, b: int|
                    0 <= a < s.len() && 0 <= b < s.len() && a != b implies #[trigger] s[a].id
                    != #[trigger] s[b].id by {
                    let a0 = if a < k { a } else { a + 1 };
                    let b1 = if b < k { b } else { b + 1 };
                    assert(s[a] == b0[a0]);
                    assert(s[b] == b0[b1]);
                }
            }
        }
        assert forall|i: int, m: int|
            0 <= i < p.len() && 0 <= m < p[i].blocks_in_flight@.len() implies claimed(
            g,
            #[trigger] p[i].blocks_in_flight@[m].id,
            p[i].peer_id,
        ) by {
            let e = p[i].blocks_in_flight@[m];
            let m0 = if i != pi { m } else if m < k { m } else { m + 1 };
            if i != pi {
                assert(p[i] == old.peers@[i]);
                old.lemma_in_flight_disjoint(i, pi, m, k);
            } else {
                assert(e == b0[m0]);
                assert(in_flight_unique(old.peers@[pi].blocks_in_flight@));
                assert(old.peers@[pi].blocks_in_flight@[m0] == b0[m0]);
                assert(old.peers@[pi].blocks_in_flight@[k] == b0[k]);
            }
            assert(old.peers@[i].blocks_in_flight@[m0] == e);
            assert(claimed(g0, e.id, p[i].peer_id));
            let w = choose|w: int|
                0 <= w < g0.len() && #[trigger] g0[w].id == e.id && g0[w].peer == p[i].peer_id;
            assert(w != gi);
            let w1 = if w < gi { w } else { w - 1 };
            assert(g[w1] == g0[w]);
        }
        assert forall|j: int| 0 <= j < g.len() implies owned(p, #[trigger] g[j]) by {
            let j0 = if j < gi { j } else { j + 1 };
            assert(g[j] == g0[j0]);
            assert(owned(old.peers@, g0[j0]));
            let i = choose|i: int|
                0 <= i < old.peers@.len() && #[trigger] old.peers@[i].peer_id == g0[j0].peer
                    && in_flight_has(old.peers@[i].blocks_in_flight@, g0[j0].id);
            let s0 = old.peers@[i].blocks_in_flight@;
            let k0 = choose|k0: int| 0 <= k0 < s0.len() && #[trigger] s0[k0].id == g0[j0].id;
            if i == pi {
                assert(g0[j0].id != g0[gi].id);
                assert(k0 != k);
                let k1 = if k0 < k { k0 } else { k0 - 1 };
                assert(p[pi].blocks_in_flight@[k1] == s0[k0]);
            } else {
                assert(p[i] == old.peers@[i]);
            }
            assert(p[i].peer_id == g[j].peer);
            assert(in_flight_has(p[i].blocks_in_flight@, g[j].id));
        }
    }

    /// Takes delivery of block `id` from peer `pi`. It must be one requested from that peer;
    /// it then leaves both sets of blocks in flight.
    pub fn handle_block_response(&mut self, pi: usize, id: BlockId) -> (r: Result<(), crate::error::Misbehavior>)
        requires
            old(self).wf(),
            pi < old(self).peers@.len(),
        ensures
            final(self).wf(),
            final(self).others_kept(old(self), pi as int),
            final(self).best_known_kept(old(self)),
            final(self).config == old(self).config,
            r.is_ok() == in_flight_has(old(self).peers@[pi as int].blocks_in_flight@, id),
            r.is_err() ==> r == Err::<(), crate::error::Misbehavior>(
                crate::error::Misbehavior::Protocol(crate::error::ProtocolError::UnsolicitedBlock),
            ) && final(self).peers@ == old(self).peers@ && final(self).globally_in_flight@
                == old(self).globally_in_flight@,
            r.is_ok() ==> !in_flight_has(final(self).peers@[pi as int].blocks_in_flight@, id)
                && !global_has(final(self).globally_in_flight@, id) && (exists|k: int|
                0 <= k < old(self).peers@[pi as int].blocks_in_flight@.len()
                    && #[trigger] old(self).peers@[pi as int].blocks_in_flight@[k].id == id
                    && final(self).peers@[pi as int].blocks_in_flight@ == old(
                    self,
                ).peers@[pi as int].blocks_in_flight@.remove(k)) && (exists|gi: int|
                0 <= gi < old(self).globally_in_flight@.len()
                    && #[trigger] old(self).globally_in_flight@[gi].id == id
                    && final(self).globally_in_flight@ == old(self).globally_in_flight@.remove(gi)),
            final(self).peers@[pi as int].best_known_block == old(self).peers@[pi as int].best_known_block,
            final(self).peers@[pi as int].pending_headers@ == old(self).peers@[pi as int].pending_headers@,
            final(self).peers@[pi as int].peer_id == old(self).peers@[pi as int].peer_id,
    {
        match self.peers[pi].in_flight_index(id) {
            None => Err(crate::error::Misbehavior::Protocol(crate::error::ProtocolError::UnsolicitedBlock)),
            Some(k) => {
                let ghost b0 = self.peers@[pi as int].blocks_in_flight@;
                proof {
                    assert(in_flight_unique(b0));
                }
                self.release(pi, k);
                proof {
                    let b1 = self.peers@[pi as int].blocks_in_flight@;
                    assert forall|m: int| 0 <= m < b1.len() implies #[trigger] b1[m].id != id by {
                        let m0 = if m < k { m } else { m + 1 };
                        assert(b1[m] == b0[m0]);
                    }
                }
                Ok(())
            },
        }
    }

    /// Looks for a block from peer `pi` whose request is older than the stalling timeout.
    /// The first such block is released and the peer is reported as stalling.
    pub fn check_stalling(&mut self, pi: usize, now: u64) -> (r: Option<crate::error::Misbehavior>)
        requires
            old(self).wf(),
            pi < old(self).peers@.len(),
        ensures
            final(self).wf(),
            final(self).others_kept(old(self), pi as int),
            final(self).best_known_kept(old(self)),
            final(self).config == old(self).config,
            ({
                let b0 = old(self).peers@[pi as int].blocks_in_flight@;
                let t = old(self).config.sync_stalling_timeout;
                &&& r.is_some() == exists|k: int| 0 <= k < b0.len() && #[trigger] stalled(b0[k], now, t)
                &&& r.is_some() ==> r == Some(crate::error::Misbehavior::Protocol(crate::error::ProtocolError::Stalling))
                    && exists|k: int| 0 <= k < b0.len() && #[trigger] stalled(b0[k], now, t)
                        && (forall|j: int| 0 <= j < k ==> !stalled(#[trigger] b0[j], now, t))
                        && final(self).peers@[pi as int].blocks_in_flight@ == b0.remove(k)
                        && !global_has(final(self).globally_in_flight@, b0[k].id)
                &&& r.is_none() ==> final(self).peers@ == old(self).peers@
                    && final(self).globally_in_flight@ == old(self).globally_in_flight@
            }),
            final(self).peers@[pi as int].best_known_block == old(self).peers@[pi as int].best_known_block,
            final(self).peers@[pi as int].peer_id == old(self).peers@[pi as int].peer_id,
    {
        let t = self.config.sync_stalling_timeout;
        let mut k: usize = 0;
        while k < self.peers[pi].blocks_in_flight.len()
            invariant
                pi < self.peers@.len(),
                self.wf(),
                self.peers@ == old(self).peers@,
                self.globally_in_flight@ == old(self).globally_in_flight@,
                self.config == old(self).config,
                k <= self.peers@[pi as int].blocks_in_flight@.len(),
                t == self.config.sync_stalling_timeout,
                forall|j: int| 0 <= j < k ==> !stalled(#[trigger] self.peers@[pi as int].blocks_in_flight@[j], now, t),
            decreases self.peers@[pi as int].blocks_in_flight@.len() - k,
        {
            let e = self.peers[pi].blocks_in_flight[k];
            if now > e.requested_at && now - e.requested_at > t {
                let ghost b0 = self.peers@[pi as int].blocks_in_flight@;
                assert(stalled(b0[k as int], now, t));
                self.release(pi, k);
                assert(forall|j: int| 0 <= j < k ==> !stalled(#[trigger] b0[j], now, t));
                return Some(crate::error::Misbehavior::Protocol(crate::error::ProtocolError::Stalling));
            }
            k = k + 1;
        }
        None
    }

    /// Disconnects peer `pi`: its blocks in flight leave the node-wide set, and its context
    /// is dropped.
    pub fn remove_peer(&mut self, pi: usize)
        requires
            old(self).wf(),
            pi < old(self).peers@.len(),
        ensures
            final(self).wf(),
            final(self).config == old(self).config,
            final(self).peers@ == old(self).peers@.remove(pi as int),
            forall|k: int|
                0 <= k < old(self).peers@[pi as int].blocks_in_flight@.len() ==> !global_has(
                    final(self).globally_in_flight@,
                    #[trigger] old(self).peers@[pi as int].blocks_in_flight@[k].id,
                ),
            forall|e: GlobalInFlight|
                #[trigger] final(self).globally_in_flight@.contains(e) <==> old(
                    self,
                ).globally_in_flight@.contains(e) && e.peer != old(self).peers@[pi as int].peer_id,
    {
        let ghost pid = self.peers@[pi as int].peer_id;
        let ghost b0 = self.peers@[pi as int].blocks_in_flight@;
        while self.peers[pi].blocks_in_flight.len() > 0
            invariant
                self.wf(),
                pi < self.peers@.len(),
                self.config == old(self).config,
                self.others_kept(old(self), pi as int),
                self.peers@[pi as int].peer_id == old(self).peers@[pi as int].peer_id,
                self.peers@[pi as int].best_known_block == old(self).peers@[pi as int].best_known_block,
                self.peers@[pi as int].pending_headers@ == old(self).peers@[pi as int].pending_headers@,
                self.peers@[pi as int].blocks_in_flight@.len() <= b0.len(),
                self.peers@[pi as int].blocks_in_flight@ == b0.subrange(0, self.peers@[pi as int].blocks_in_flight@.len() as int),
                forall|k: int|
                    self.peers@[pi as int].blocks_in_flight@.len() <= k < b0.len() ==> !global_has(
                        self.globally_in_flight@,
                        #[trigger] b0[k].id,
                    ),
                forall|e: GlobalInFlight|
                    #[trigger] self.globally_in_flight@.contains(e) ==> old(self).globally_in_flight@.contains(e),
                forall|e: GlobalInFlight|
                    old(self).globally_in_flight@.contains(e) && e.peer != pid
                        ==> #[trigger] self.globally_in_flight@.contains(e),
                pid == old(self).peers@[pi as int].peer_id,
            decreases self.peers@[pi as int].blocks_in_flight@.len(),
        {
            let last = self.peers[pi].blocks_in_flight.len() - 1;
            let ghost g1 = self.globally_in_flight@;
            let ghost n = self.peers@[pi as int].blocks_in_flight@.len();
            let ghost bn = self.peers@[pi as int].blocks_in_flight@;
            assert(bn[n - 1] == b0[n - 1]);
            self.release(pi, last);
            proof {
                let g2 = self.globally_in_flight@;
                assert(bn.remove(n - 1) =~= b0.subrange(0, n - 1));
                assert(self.peers@[pi as int].blocks_in_flight@ =~= b0.subrange(0, n - 1));
                assert forall|k: int| n - 1 <= k < b0.len() implies !global_has(g2, #[trigger] b0[k].id) by {
                    if k >= n {
                        if global_has(g2, b0[k].id) {
                            let j = choose|j: int| 0 <= j < g2.len() && #[trigger] g2[j].id == b0[k].id;
                            let gi = choose|gi: int|
                                0 <= gi < g1.len() && #[trigger] g1[gi].id == b0[n - 1].id && g2 == g1.remove(gi);
                            let j0 = if j < gi { j } else { j + 1 };
                            assert(g2[j] == g1[j0]);
                        }
                    }
                }
                let gi = choose|gi: int|
                    0 <= gi < g1.len() && #[trigger] g1[gi].id == b0[n - 1].id && g2 == g1.remove(gi);
                assert(bn[n - 1] == b0[n - 1]);
                assert(claimed(g1, b0[n - 1].id, pid));
                let w = choose|w: int| 0 <= w < g1.len() && #[trigger] g1[w].id == b0[n - 1].id && g1[w].peer == pid;
                assert(w == gi);
                assert forall|e: GlobalInFlight|
                    old(self).globally_in_flight@.contains(e) && e.peer != pid implies #[trigger] g2.contains(e) by {
                    assert(g1.contains(e));
                    let je = choose|je: int| 0 <= je < g1.len() && g1[je] == e;
                    assert(je != gi);
                    let j2 = if je < gi { je } else { je - 1 };
                    assert(g2[j2] == e);
                }
                assert forall|e: GlobalInFlight| #[trigger] g2.contains(e) implies old(self).globally_in_flight@.contains(e) by {
                    let j = choose|j: int| 0 <= j < g2.len() && g2[j] == e;
                    let gi = choose|gi: int|
                        0 <= gi < g1.len() && #[trigger] g1[gi].id == b0[n - 1].id && g2 == g1.remove(gi);
                    let j0 = if j < gi { j } else { j + 1 };
                    assert(g2[j] == g1[j0]);
                    assert(g1.contains(e));
                }
            }
        }
        let ghost peers1 = self.peers@;
        self.peers.remove(pi);
        proof {
            assert(self.peers@ =~= old(self).peers@.remove(pi as int));
            let p = self.peers@;
            assert forall|a: int, b: int|
                0 <= a < p.len() && 0 <= b < p.len() && a != b implies #[trigger] p[a].peer_id
                != #[trigger] p[b].peer_id by {
                let a0 = if a < pi { a } else { a + 1 };
                let b1 = if b < pi { b } else { b + 1 };
                assert(p[a] == peers1[a0]);
                assert(p[b] == peers1[b1]);
            }
            assert forall|i: int| 0 <= i < p.len() implies #[trigger] p[i].blocks_in_flight@.len()
                <= self.config.max_request_blocks_count by {
                let i0 = if i < pi { i } else { i + 1 };
                assert(p[i] == peers1[i0]);
            }
            assert forall|i: int| 0 <= i < p.len() implies in_flight_unique(
                #[trigger] p[i].blocks_in_flight@,
            ) by {
                let i0 = if i < pi { i } else { i + 1 };
                assert(p[i] == peers1[i0]);
            }
            assert forall|i: int, m: int|
                0 <= i < p.len() && 0 <= m < p[i].blocks_in_flight@.len() implies claimed(
                self.globally_in_flight@,
                #[trigger] p[i].blocks_in_flight@[m].id,
                p[i].peer_id,
            ) by {
                let i0 = if i < pi { i } else { i + 1 };
                assert(p[i] == peers1[i0]);
                assert(peers1[i0].blocks_in_flight@[m] == p[i].blocks_in_flight@[m]);
            }
            let g = self.globally_in_flight@;
            assert forall|j: int| 0 <= j < g.len() implies owned(p, #[trigger] g[j]) by {
                assert(owned(peers1, g[j]));
                let i = choose|i: int|
                    0 <= i < peers1.len() && #[trigger] peers1[i].peer_id == g[j].peer
                        && in_flight_has(peers1[i].blocks_in_flight@, g[j].id);
                assert(i != pi);
                let i1 = if i < pi { i } else { i - 1 };
                assert(p[i1] == peers1[i]);
            }
            assert forall|e: GlobalInFlight| #[trigger] g.contains(e) implies e.peer != pid by {
                let j = choose|j: int| 0 <= j < g.len() && g[j] == e;
                assert(owned(peers1, g[j]));
                let i = choose|i: int|
                    0 <= i < peers1.len() && #[trigger] peers1[i].peer_id == g[j].peer
                        && in_flight_has(peers1[i].blocks_in_flight@, g[j].id);
                assert(i != pi);
                assert(peers1[i].peer_id != peers1[pi as int].peer_id);
            }
        }
    }

    /// Changing a peer's fields other than its id and its blocks in flight keeps the invariant.
    pub(crate) proof fn lemma_same_flight_keeps_wf(&self, old: &SyncManager, pi: int)
        requires
            old.wf(),
            0 <= pi < old.peers@.len(),
            self.config == old.config,
            self.globally_in_flight@ == old.globally_in_flight@,
            self.others_kept(old, pi),
            self.peers@[pi].peer_id == old.peers@[pi].peer_id,
            self.peers@[pi].blocks_in_flight@ == old.peers@[pi].blocks_in_flight@,
        ensures
            self.wf(),
    {
        let p = self.peers@;
        assert forall|a: int, b: int|
            0 <= a < p.len() && 0 <= b < p.len() && a != b implies #[trigger] p[a].peer_id
            != #[trigger] p[b].peer_id by {
            assert(old.peers@[a].peer_id != old.peers@[b].peer_id);
        }
        assert forall|i: int| 0 <= i < p.len() implies #[trigger] p[i].blocks_in_flight@.len()
            <= self.config.max_request_blocks_count by {
            assert(old.peers@[i].blocks_in_flight@.len() <= self.config.max_request_blocks_count);
        }
        assert forall|i: int| 0 <= i < p.len() implies in_flight_unique(
            #[trigger] p[i].blocks_in_flight@,
        ) by {
            assert(in_flight_unique(old.peers@[i].blocks_in_flight@));
        }
        assert forall|i: int, m: int|
            0 <= i < p.len() && 0 <= m < p[i].blocks_in_flight@.len() implies claimed(
            self.globally_in_flight@,
            #[trigger] p[i].blocks_in_flight@[m].id,
            p[i].peer_id,
        ) by {
            assert(old.peers@[i].blocks_in_flight@[m] == p[i].blocks_in_flight@[m]);
        }
        let g = self.globally_in_flight@;
        assert forall|j: int| 0 <= j < g.len() implies owned(p, #[trigger] g[j]) by {
            assert(owned(old.peers@, g[j]));
            let i = choose|i: int|
                0 <= i < old.peers@.len() && #[trigger] old.peers@[i].peer_id == g[j].peer
                    && in_flight_has(old.peers@[i].blocks_in_flight@, g[j].id);
            assert(p[i].peer_id == g[j].peer);
        }
    }

    /// Stamps the time of the last message from peer `pi`.
    pub fn record_activity(&mut self, pi: usize, now: u64)
        requires
            old(self).wf(),
            pi < old(self).peers@.len(),
        ensures
            final(self).wf(),
            final(self).config == old(self).config,
            final(self).globally_in_flight@ == old(self).globally_in_flight@,
            final(self).others_kept(old(self), pi as int),
            final(self).best_known_kept(old(self)),
            ({
                let pre = old(self).peers@[pi as int];
                let post = final(self).peers@[pi as int];
                &&& post.last_activity_at == now
                &&& post.peer_id == pre.peer_id
                &&& post.state == pre.state
                &&& post.best_known_block == pre.best_known_block
                &&& post.blocks_in_flight@ == pre.blocks_in_flight@
                &&& post.pending_headers@ == pre.pending_headers@
                &&& post.known_headers_sent == pre.known_headers_sent
                &&& post.singular_unconnected_headers_count == pre.singular_unconnected_headers_count
            }),
    {
        let ghost peers0 = self.peers@;
        let mut peer = self.peers.remove(pi);
        peer.last_activity_at = now;
        self.peers.insert(pi, peer);
        assert(self.peers@ =~= peers0.update(pi as int, peer));
        proof {
            self.lemma_same_flight_keeps_wf(old(self), pi as int);
        }
    }

    /// No peer ever has more blocks in flight than the block request limit.
    pub proof fn lemma_in_flight_within_limit(&self, i: int)
        requires
            self.wf(),
            0 <= i < self.peers@.len(),
        ensures
            self.peers@[i].blocks_in_flight@.len() <= self.config.max_request_blocks_count,
    {
    }

    /// No block is in flight from two different peers at once.
    pub proof fn lemma_in_flight_disjoint(&self, i: int, j: int, k: int, l: int)
        requires
            self.wf(),
            0 <= i < self.peers@.len(),
            0 <= j < self.peers@.len(),
            i != j,
            0 <= k < self.peers@[i].blocks_in_flight@.len(),
            0 <= l < self.peers@[j].blocks_in_flight@.len(),
        ensures
            self.peers@[i].blocks_in_flight@[k].id != self.peers@[j].blocks_in_flight@[l].id,
    {
        let g = self.globally_in_flight@;
        let p = self.peers@;
        if p[i].blocks_in_flight@[k].id == p[j].blocks_in_flight@[l].id {
            assert(claimed(g, p[i].blocks_in_flight@[k].id, p[i].peer_id));
            assert(claimed(g, p[j].blocks_in_flight@[l].id, p[j].peer_id));
            let a = choose|a: int|
                0 <= a < g.len() && #[trigger] g[a].id == p[i].blocks_in_flight@[k].id && g[a].peer
                    == p[i].peer_id;
            let b = choose|b: int|
                0 <= b < g.len() && #[trigger] g[b].id == p[j].blocks_in_flight@[l].id && g[b].peer
                    == p[j].peer_id;
            assert(a == b);
            assert(p[i].peer_id != p[j].peer_id);
        }
    }
}

} // verus!
