use vstd::prelude::*;
use crate::chain::{chain_has, headers_after_spec, BlockId, BlockRef, ChainView, Header};
use crate::error::{Misbehavior, ProtocolError};
use crate::peer::{advanced, best_height};
use crate::sync::{claims_of, requested, select_blocks, SyncManager};

verus! {

/// Height in `chain` from which an announcement to a peer with best known block `best`
/// starts: that block's height when it is on the best chain, genesis otherwise.
pub open spec fn anchor_height(chain: Seq<Header>, best: Option<BlockRef>) -> int {
    match best {
        Some(b) => if chain_has(chain, b.id) {
            choose|i: int| 0 <= i < chain.len() && #[trigger] chain[i].id == b.id
        } else {
            0
        },
        None => 0,
    }
}

/// True when `b` answers the `k`-th requested id: that block, at its height in `chain`.
pub open spec fn served(chain: Seq<Header>, ids: Seq<BlockId>, b: BlockRef, k: int) -> bool {
    &&& b.id == ids[k]
    &&& b.height < chain.len()
    &&& chain[b.height as int].id == ids[k]
}

/// True when `b` is one of the blocks of `v`.
pub open spec fn one_of(b: Option<BlockRef>, v: Seq<BlockRef>) -> bool {
    exists|k: int| 0 <= k < v.len() && b == Some(#[trigger] v[k])
}

/// True when every id of `ids` is on `chain`.
pub open spec fn all_on_chain(chain: Seq<Header>, ids: Seq<BlockId>) -> bool {
    forall|k: int| 0 <= k < ids.len() ==> chain_has(chain, #[trigger] ids[k])
}

impl SyncManager {
    /// The header announcement for peer `pi` after the local tip changed: the best chain's
    /// headers above the anchor, at most the header count limit. The anchor is the peer's
    /// best known block when it is on the best chain, genesis otherwise. Nothing is sent while
    /// blocks are in flight from the peer, when the peer already has the tip, or when the tip
    /// was the last header announced. The best known block is left alone until the peer
    /// acknowledges; the last announced header is remembered.
    pub fn announce(&mut self, pi: usize, chain: &ChainView) -> (r: Option<Vec<Header>>)
        requires
            old(self).wf(),
            chain.wf(),
            pi < old(self).peers@.len(),
        ensures
            final(self).wf(),
            final(self).config == old(self).config,
            final(self).globally_in_flight@ == old(self).globally_in_flight@,
            final(self).others_kept(old(self), pi as int),
            final(self).best_known_kept(old(self)),
            ({
                let pre = old(self).peers@[pi as int];
                let post = final(self).peers@[pi as int];
                let a = anchor_height(chain@, pre.best_known_block);
                let tip = chain@.len() - 1;
                let limit = old(self).config.msg_header_count_limit;
                &&& 0 <= a < chain@.len()
                &&& r.is_some() == (pre.blocks_in_flight@.len() == 0 && a < tip
                    && pre.known_headers_sent != Some(chain@[tip].id) && limit > 0)
                &&& r.is_none() ==> final(self).peers@ == old(self).peers@
                &&& r.is_some() ==> {
                    let hs = r.unwrap()@;
                    &&& hs == headers_after_spec(chain@, a, limit as int)
                    &&& hs.len() > 0
                    &&& hs[0].prev == chain@[a].id
                    &&& (a == 0 || pre.best_known_block == Some(
                        BlockRef { id: chain@[a].id, height: pre.best_known_block.unwrap().height },
                    ))
                    &&& post.known_headers_sent == Some(hs.last().id)
                }
                &&& post.peer_id == pre.peer_id
                &&& post.best_known_block == pre.best_known_block
                &&& post.blocks_in_flight@ == pre.blocks_in_flight@
                &&& post.pending_headers@ == pre.pending_headers@
            }),
    {
        let limit = self.config.msg_header_count_limit;
        let a: usize = match self.peers[pi].best_known_block {
            Some(b) => match chain.find(b.id) {
                Some(h) => {
                    proof {
                        let c = choose|i: int| 0 <= i < chain@.len() && #[trigger] chain@[i].id == b.id;
                        assert(chain@[h as int].id == b.id);
                        assert(c == h);
                    }
                    h
                },
                None => 0,
            },
            None => 0,
        };
        let tip = chain.tip();
        let tip_h = chain.len() - 1;
        if self.peers[pi].blocks_in_flight.len() > 0 || a >= tip_h || limit == 0 {
            return None;
        }
        match self.peers[pi].known_headers_sent {
            Some(sent) => {
                if sent == tip.id {
                    return None;
                }
            },
            None => {},
        }
        let hs = chain.headers_after(a, limit);
        let last = hs[hs.len() - 1].id;
        let ghost peers0 = self.peers@;
        let mut peer = self.peers.remove(pi);
        peer.known_headers_sent = Some(last);
        self.peers.insert(pi, peer);
        assert(self.peers@ =~= peers0.update(pi as int, peer));
        proof {
            self.lemma_same_flight_keeps_wf(old(self), pi as int);
        }
        Some(hs)
    }

    /// Serves a block request from peer `pi`: each requested block must be on the local best
    /// chain, and no more may be asked than the block request limit. The blocks served, with
    /// their heights, are returned; the peer's best known block rises to the highest of them.
    pub fn handle_block_list_request(
        &mut self,
        pi: usize,
        chain: &ChainView,
        ids: &Vec<BlockId>,
    ) -> (r: Result<Vec<BlockRef>, Misbehavior>)
        requires
            old(self).wf(),
            chain.wf(),
            pi < old(self).peers@.len(),
        ensures
            final(self).wf(),
            final(self).config == old(self).config,
            final(self).globally_in_flight@ == old(self).globally_in_flight@,
            final(self).others_kept(old(self), pi as int),
            final(self).best_known_kept(old(self)),
            final(self).peers@[pi as int].peer_id == old(self).peers@[pi as int].peer_id,
            final(self).peers@[pi as int].blocks_in_flight@ == old(self).peers@[pi as int].blocks_in_flight@,
            final(self).peers@[pi as int].pending_headers@ == old(self).peers@[pi as int].pending_headers@,
            ids@.len() > old(self).config.max_request_blocks_count ==> r == Err::<Vec<BlockRef>, Misbehavior>(
                Misbehavior::Protocol(ProtocolError::MessageTooLarge),
            ) && final(self).peers@ == old(self).peers@,
            ids@.len() <= old(self).config.max_request_blocks_count && !all_on_chain(chain@, ids@) ==> r
                == Err::<Vec<BlockRef>, Misbehavior>(Misbehavior::Protocol(ProtocolError::UnknownBlockRequested))
                && final(self).peers@ == old(self).peers@,
            ids@.len() <= old(self).config.max_request_blocks_count && all_on_chain(chain@, ids@) ==> r.is_ok(),
            match r {
                Ok(v) => {
                    let best = final(self).peers@[pi as int].best_known_block;
                    &&& v@.len() == ids@.len()
                    &&& forall|k: int| 0 <= k < v@.len() ==> served(chain@, ids@, #[trigger] v@[k], k)
                    &&& forall|k: int| 0 <= k < v@.len() ==> (#[trigger] v@[k]).height <= best_height(best)
                    &&& (best == old(self).peers@[pi as int].best_known_block || one_of(best, v@))
                },
                Err(_) => true,
            },
    {
        if ids.len() > self.config.max_request_blocks_count {
            return Err(Misbehavior::Protocol(ProtocolError::MessageTooLarge));
        }
        let mut v: Vec<BlockRef> = Vec::new();
        let mut k: usize = 0;
        while k < ids.len()
            invariant
                chain.wf(),
                self.wf(),
                pi < self.peers@.len(),
                self.peers@ == old(self).peers@,
                self.globally_in_flight@ == old(self).globally_in_flight@,
                self.config == old(self).config,
                ids@.len() <= old(self).config.max_request_blocks_count,
                k <= ids@.len(),
                v@.len() == k,
                forall|j: int| 0 <= j < k ==> served(chain@, ids@, #[trigger] v@[j], j),
                forall|j: int| 0 <= j < k ==> chain_has(chain@, #[trigger] ids@[j]),
            decreases ids@.len() - k,
        {
            match chain.find(ids[k]) {
                Some(h) => {
                    v.push(BlockRef { id: ids[k], height: h as u64 });
                },
                None => {
                    assert(!chain_has(chain@, ids@[k as int]));
                    return Err(Misbehavior::Protocol(ProtocolError::UnknownBlockRequested));
                },
            }
            k = k + 1;
        }
        let ghost peers0 = self.peers@;
        let mut peer = self.peers.remove(pi);
        let ghost pre = peer;
        assert(pre == old(self).peers@[pi as int]);
        let ghost rest = self.peers@;
        let mut k: usize = 0;
        while k < v.len()
            invariant
                self.peers@ == rest,
                self.globally_in_flight@ == old(self).globally_in_flight@,
                self.config == old(self).config,
                k <= v@.len(),
                v@.len() == ids@.len(),
                forall|j: int| 0 <= j < v@.len() ==> served(chain@, ids@, #[trigger] v@[j], j),
                peer.peer_id == pre.peer_id,
                peer.blocks_in_flight@ == pre.blocks_in_flight@,
                peer.pending_headers@ == pre.pending_headers@,
                best_height(pre.best_known_block) <= best_height(peer.best_known_block),
                forall|j: int| 0 <= j < k ==> (#[trigger] v@[j]).height <= best_height(peer.best_known_block),
                peer.best_known_block == pre.best_known_block || one_of(
                    peer.best_known_block,
                    v@.subrange(0, k as int),
                ),
            decreases v@.len() - k,
        {
            let ghost before = peer.best_known_block;
            peer.advance_best_known(v[k]);
            proof {
                if peer.best_known_block != before {
                    assert(peer.best_known_block == Some(v@.subrange(0, k + 1)[k as int]));
                } else if before != pre.best_known_block {
                    let j = choose|j: int|
                        0 <= j < k && before == Some(#[trigger] v@.subrange(0, k as int)[j]);
                    assert(v@.subrange(0, k + 1)[j] == v@.subrange(0, k as int)[j]);
                }
            }
            k = k + 1;
        }
        self.peers.insert(pi, peer);
        assert(self.peers@ =~= peers0.update(pi as int, peer));
        proof {
            self.lemma_same_flight_keeps_wf(old(self), pi as int);
        }
        assert(v@.subrange(0, v@.len() as int) =~= v@);
        Ok(v)
    }

    /// After chainstate accepted block `id` from peer `pi`: the peer's best known block rises
    /// to it, and the peer's free slots are filled again from its pending headers.
    pub fn block_accepted(&mut self, pi: usize, chain: &ChainView, id: BlockId, now: u64) -> (r: Vec<
        BlockId,
    >)
        requires
            old(self).wf(),
            chain.wf(),
            pi < old(self).peers@.len(),
        ensures
            final(self).wf(),
            final(self).config == old(self).config,
            final(self).others_kept(old(self), pi as int),
            final(self).best_known_kept(old(self)),
            ({
                let pre = old(self).peers@[pi as int];
                let post = final(self).peers@[pi as int];
                let sel = select_blocks(
                    pre.pending_headers@,
                    chain@,
                    old(self).globally_in_flight@,
                    old(self).config.max_request_blocks_count - pre.blocks_in_flight@.len(),
                    0,
                    seq![],
                );
                &&& post.peer_id == pre.peer_id
                &&& r@ == sel.0
                &&& post.pending_headers@ == pre.pending_headers@.subrange(
                    sel.1,
                    pre.pending_headers@.len() as int,
                )
                &&& post.blocks_in_flight@ == pre.blocks_in_flight@ + requested(r@, now)
                &&& final(self).globally_in_flight@ == old(self).globally_in_flight@ + claims_of(
                    r@,
                    pre.peer_id,
                )
                &&& !chain_has(chain@, id) ==> post.best_known_block == pre.best_known_block
                &&& forall|h: int|
                    0 <= h < chain@.len() && #[trigger] chain@[h].id == id ==> post.best_known_block
                        == advanced(pre.best_known_block, BlockRef { id: id, height: h as u64 })
            }),
            forall|k: int| 0 <= k < r@.len() ==> !chain_has(chain@, #[trigger] r@[k]),
    {
        match chain.find(id) {
            Some(h) => {
                let ghost peers0 = self.peers@;
                let mut peer = self.peers.remove(pi);
                peer.advance_best_known(BlockRef { id, height: h as u64 });
                self.peers.insert(pi, peer);
                assert(self.peers@ =~= peers0.update(pi as int, peer));
                proof {
                    self.lemma_same_flight_keeps_wf(old(self), pi as int);
                    assert forall|h2: int|
                        0 <= h2 < chain@.len() && #[trigger] chain@[h2].id == id implies h2 == h by {
                        if h2 != h {
                            assert(chain@[h2].id != chain@[h as int].id);
                        }
                    }
                }
            },
            None => {},
        }
        self.schedule(pi, chain, now)
    }
}

} // verus!
