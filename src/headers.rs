use vstd::prelude::*;
use crate::chain::{
    chain_has, headers_after_spec, is_fork_point, is_locator, BlockId, BlockRef, ChainView, Header,
};
use crate::error::{Misbehavior, ProtocolError};
use crate::peer::{advanced, PeerState, ProtocolVersion};
use crate::sync::{claims_of, requested, select_blocks, SyncManager};

verus! {

/// Each header of `hs` has the one before it as parent.
pub open spec fn linked(hs: Seq<Header>) -> bool {
    forall|i: int| 0 < i < hs.len() ==> #[trigger] hs[i].prev == hs[i - 1].id
}

/// Checks that each header has the one before it as parent.
pub fn is_linked(headers: &Vec<Header>) -> (r: bool)
    ensures
        r == linked(headers@),
{
    let n = headers.len();
    let mut i: usize = 1;
    while i < n
        invariant
            1 <= i,
            n == headers@.len(),
            forall|j: int| 0 < j < i && j < n ==> #[trigger] headers@[j].prev == headers@[j - 1].id,
        decreases n - i,
    {
        if headers[i].prev != headers[i - 1].id {
            return false;
        }
        i = i + 1;
    }
    true
}

/// What the node does in answer to a header list.
#[derive(Debug)]
pub enum HeaderListReaction {
    /// The list is accepted; these blocks are now requested from the peer (possibly none).
    Accepted(Vec<BlockId>),
    /// A lone unconnected header within tolerance: a header request carrying this locator goes
    /// to the peer, to help it find the common ancestor.
    RequestHeaders(Vec<BlockId>),
    /// The list breaks the protocol or was refused by chainstate.
    Misbehaved(Misbehavior),
}

impl HeaderListReaction {
    pub open spec fn misbehaved(&self, m: Misbehavior) -> bool {
        match self {
            HeaderListReaction::Misbehaved(x) => *x == m,
            _ => false,
        }
    }
}

/// Singular unconnected headers counted after one more of them.
pub open spec fn bumped(count: u32) -> u32 {
    if count < u32::MAX {
        (count + 1) as u32
    } else {
        count
    }
}

impl SyncManager {
    /// Handles a header list from peer `pi`. `check_failure` is the ban score of the first
    /// header that chainstate's preliminary check refused, if any. The list is checked for
    /// size, internal linkage, header validity, and connection to the local best chain, in that
    /// order. A connected list resets the singular unconnected counter, raises the best known
    /// block to the last header, becomes the peer's pending headers, and is scheduled for
    /// download. A lone unconnected header is answered with a header request while a V1 peer
    /// stays within tolerance; any other unconnected list is misbehavior.
    pub fn handle_header_list(
        &mut self,
        pi: usize,
        chain: &ChainView,
        headers: &Vec<Header>,
        check_failure: Option<u32>,
        now: u64,
    ) -> (r: HeaderListReaction)
        requires
            old(self).wf(),
            chain.wf(),
            pi < old(self).peers@.len(),
        ensures
            final(self).wf(),
            final(self).config == old(self).config,
            final(self).others_kept(old(self), pi as int),
            final(self).best_known_kept(old(self)),
            ({
                let cfg = old(self).config;
                let pre = old(self).peers@[pi as int];
                let post = final(self).peers@[pi as int];
                let hs = headers@;
                let unchanged = final(self).peers@ == old(self).peers@
                    && final(self).globally_in_flight@ == old(self).globally_in_flight@;
                let counted = bumped(pre.singular_unconnected_headers_count);
                &&& post.peer_id == pre.peer_id
                &&& hs.len() == 0 ==> (match r {
                    HeaderListReaction::Accepted(v) => v@.len() == 0,
                    _ => false,
                }) && post.state == PeerState::Steady && post.best_known_block == pre.best_known_block
                    && post.blocks_in_flight@ == pre.blocks_in_flight@
                    && post.pending_headers@ == pre.pending_headers@
                    && post.singular_unconnected_headers_count == pre.singular_unconnected_headers_count
                    && final(self).globally_in_flight@ == old(self).globally_in_flight@
                &&& hs.len() > cfg.msg_header_count_limit ==> r.misbehaved(
                    Misbehavior::Protocol(ProtocolError::MessageTooLarge),
                ) && unchanged
                &&& 0 < hs.len() <= cfg.msg_header_count_limit && !linked(hs) ==> r.misbehaved(
                    Misbehavior::Protocol(ProtocolError::DisconnectedHeaders),
                ) && unchanged
                &&& 0 < hs.len() <= cfg.msg_header_count_limit && linked(hs) && check_failure.is_some()
                    ==> r.misbehaved(Misbehavior::Chainstate(check_failure.unwrap())) && unchanged
                &&& 1 < hs.len() <= cfg.msg_header_count_limit && linked(hs) && check_failure.is_none()
                    && !chain_has(chain@, hs[0].prev) ==> r.misbehaved(
                    Misbehavior::Protocol(ProtocolError::DisconnectedHeaders),
                ) && unchanged
                &&& hs.len() == 1 && 1 <= cfg.msg_header_count_limit && check_failure.is_none()
                    && !chain_has(chain@, hs[0].prev) ==> post.singular_unconnected_headers_count
                    == counted && post.best_known_block == pre.best_known_block
                    && post.blocks_in_flight@ == pre.blocks_in_flight@
                    && post.pending_headers@ == pre.pending_headers@ && post.state == pre.state
                    && final(self).globally_in_flight@ == old(self).globally_in_flight@
                    && if pre.protocol_version == ProtocolVersion::V1 && counted
                    <= cfg.max_singular_unconnected_headers {
                    match r {
                        HeaderListReaction::RequestHeaders(loc) => is_locator(
                            chain@,
                            cfg.msg_max_locator_count,
                            loc@,
                        ),
                        _ => false,
                    }
                } else {
                    r.misbehaved(Misbehavior::Protocol(ProtocolError::DisconnectedHeaders))
                }
                &&& 0 < hs.len() <= cfg.msg_header_count_limit && linked(hs) && check_failure.is_none()
                    && chain_has(chain@, hs[0].prev) ==> exists|h: int|
                    0 <= h < chain@.len() && #[trigger] chain@[h].id == hs[0].prev && {
                        let sel = select_blocks(
                            hs,
                            chain@,
                            old(self).globally_in_flight@,
                            cfg.max_request_blocks_count - pre.blocks_in_flight@.len(),
                            0,
                            seq![],
                        );
                        &&& match r {
                            HeaderListReaction::Accepted(v) => v@ == sel.0 && post.blocks_in_flight@
                                == pre.blocks_in_flight@ + requested(v@, now)
                                && final(self).globally_in_flight@ == old(
                                self,
                            ).globally_in_flight@ + claims_of(v@, pre.peer_id),
                            _ => false,
                        }
                        &&& post.pending_headers@ == hs.subrange(sel.1, hs.len() as int)
                        &&& post.best_known_block == advanced(
                            pre.best_known_block,
                            BlockRef { id: hs.last().id, height: (h + hs.len()) as u64 },
                        )
                        &&& post.singular_unconnected_headers_count == 0
                        &&& post.state == PeerState::Steady
                    }
            }),
            match r {
                HeaderListReaction::Accepted(v) => forall|k: int|
                    0 <= k < v@.len() ==> !chain_has(chain@, #[trigger] v@[k]),
                _ => true,
            },
    {
        let n = headers.len();
        let cfg = self.config;
        if n == 0 {
            self.set_state(pi, PeerState::Steady);
            return HeaderListReaction::Accepted(Vec::new());
        }
        if n > cfg.msg_header_count_limit {
            return HeaderListReaction::Misbehaved(Misbehavior::Protocol(ProtocolError::MessageTooLarge));
        }
        if !is_linked(headers) {
            return HeaderListReaction::Misbehaved(
                Misbehavior::Protocol(ProtocolError::DisconnectedHeaders),
            );
        }
        if let Some(score) = check_failure {
            return HeaderListReaction::Misbehaved(Misbehavior::Chainstate(score));
        }
        match chain.find(headers[0].prev) {
            None => {
                if n > 1 {
                    return HeaderListReaction::Misbehaved(
                        Misbehavior::Protocol(ProtocolError::DisconnectedHeaders),
                    );
                }
                let count = self.count_singular_unconnected(pi);
                if self.peers[pi].protocol_version == ProtocolVersion::V1 && count
                    <= cfg.max_singular_unconnected_headers {
                    HeaderListReaction::RequestHeaders(chain.locator(cfg.msg_max_locator_count))
                } else {
                    HeaderListReaction::Misbehaved(
                        Misbehavior::Protocol(ProtocolError::DisconnectedHeaders),
                    )
                }
            },
            Some(h) => {
                let top = BlockRef { id: headers[n - 1].id, height: h as u64 + n as u64 };
                self.accept_connected(pi, headers, top);
                let v = self.schedule(pi, chain, now);
                proof {
                    assert(chain@[h as int].id == headers@[0].prev);
                }
                HeaderListReaction::Accepted(v)
            },
        }
    }

    /// Opens the conversation with a newly connected peer `pi`: the header request to send
    /// carries the local locator, and the peer now waits for its first header list.
    pub fn start_header_exchange(&mut self, pi: usize, chain: &ChainView) -> (r: Vec<BlockId>)
        requires
            old(self).wf(),
            chain.wf(),
            pi < old(self).peers@.len(),
        ensures
            final(self).wf(),
            final(self).config == old(self).config,
            final(self).globally_in_flight@ == old(self).globally_in_flight@,
            final(self).others_kept(old(self), pi as int),
            final(self).best_known_kept(old(self)),
            is_locator(chain@, old(self).config.msg_max_locator_count, r@),
            final(self).peers@[pi as int].state == crate::peer::next_peer_state_spec(
                old(self).peers@[pi as int].state,
                true,
                false,
            ),
            final(self).peers@[pi as int].peer_id == old(self).peers@[pi as int].peer_id,
            final(self).peers@[pi as int].best_known_block == old(self).peers@[pi as int].best_known_block,
            final(self).peers@[pi as int].blocks_in_flight@ == old(self).peers@[pi as int].blocks_in_flight@,
            final(self).peers@[pi as int].pending_headers@ == old(self).peers@[pi as int].pending_headers@,
    {
        let next = crate::peer::next_peer_state(self.peers[pi].state, true, false);
        self.set_state(pi, next);
        chain.locator(self.config.msg_max_locator_count)
    }

    /// Moves peer `pi` to `state`.
    fn set_state(&mut self, pi: usize, state: PeerState)
        requires
            old(self).wf(),
            pi < old(self).peers@.len(),
        ensures
            final(self).wf(),
            final(self).config == old(self).config,
            final(self).globally_in_flight@ == old(self).globally_in_flight@,
            final(self).others_kept(old(self), pi as int),
            ({
                let pre = old(self).peers@[pi as int];
                let post = final(self).peers@[pi as int];
                &&& post.state == state
                &&& post.peer_id == pre.peer_id
                &&& post.protocol_version == pre.protocol_version
                &&& post.best_known_block == pre.best_known_block
                &&& post.blocks_in_flight@ == pre.blocks_in_flight@
                &&& post.pending_headers@ == pre.pending_headers@
                &&& post.known_headers_sent == pre.known_headers_sent
                &&& post.singular_unconnected_headers_count == pre.singular_unconnected_headers_count
            }),
    {
        let ghost peers0 = self.peers@;
        let mut peer = self.peers.remove(pi);
        peer.state = state;
        self.peers.insert(pi, peer);
        assert(self.peers@ =~= peers0.update(pi as int, peer));
        proof {
            self.lemma_same_flight_keeps_wf(old(self), pi as int);
        }
    }

    /// Counts one more singular unconnected header from peer `pi` and returns the new count.
    fn count_singular_unconnected(&mut self, pi: usize) -> (r: u32)
        requires
            old(self).wf(),
            pi < old(self).peers@.len(),
        ensures
            final(self).wf(),
            final(self).config == old(self).config,
            final(self).globally_in_flight@ == old(self).globally_in_flight@,
            final(self).others_kept(old(self), pi as int),
            ({
                let pre = old(self).peers@[pi as int];
                let post = final(self).peers@[pi as int];
                &&& r == bumped(pre.singular_unconnected_headers_count)
                &&& post.singular_unconnected_headers_count == r
                &&& post.state == pre.state
                &&& post.peer_id == pre.peer_id
                &&& post.protocol_version == pre.protocol_version
                &&& post.best_known_block == pre.best_known_block
                &&& post.blocks_in_flight@ == pre.blocks_in_flight@
                &&& post.pending_headers@ == pre.pending_headers@
                &&& post.known_headers_sent == pre.known_headers_sent
            }),
    {
        let ghost peers0 = self.peers@;
        let mut peer = self.peers.remove(pi);
        if peer.singular_unconnected_headers_count < u32::MAX {
            peer.singular_unconnected_headers_count = peer.singular_unconnected_headers_count + 1;
        }
        let r = peer.singular_unconnected_headers_count;
        self.peers.insert(pi, peer);
        assert(self.peers@ =~= peers0.update(pi as int, peer));
        proof {
            self.lemma_same_flight_keeps_wf(old(self), pi as int);
        }
        r
    }

    /// Records a connected header list from peer `pi` whose last header is `top`.
    fn accept_connected(&mut self, pi: usize, headers: &Vec<Header>, top: BlockRef)
        requires
            old(self).wf(),
            pi < old(self).peers@.len(),
        ensures
            final(self).wf(),
            final(self).config == old(self).config,
            final(self).globally_in_flight@ == old(self).globally_in_flight@,
            final(self).others_kept(old(self), pi as int),
            ({
                let pre = old(self).peers@[pi as int];
                let post = final(self).peers@[pi as int];
                &&& post.singular_unconnected_headers_count == 0
                &&& post.state == PeerState::Steady
                &&& post.peer_id == pre.peer_id
                &&& post.protocol_version == pre.protocol_version
                &&& post.best_known_block == advanced(pre.best_known_block, top)
                &&& post.blocks_in_flight@ == pre.blocks_in_flight@
                &&& post.pending_headers@ == headers@
                &&& post.known_headers_sent == pre.known_headers_sent
            }),
    {
        let ghost peers0 = self.peers@;
        let mut peer = self.peers.remove(pi);
        peer.singular_unconnected_headers_count = 0;
        peer.state = PeerState::Steady;
        peer.advance_best_known(top);
        let mut pending: Vec<Header> = Vec::new();
        let mut k: usize = 0;
        while k < headers.len()
            invariant
                k <= headers@.len(),
                pending@ == headers@.subrange(0, k as int),
            decreases headers@.len() - k,
        {
            pending.push(headers[k]);
            assert(pending@ =~= headers@.subrange(0, k + 1));
            k = k + 1;
        }
        assert(pending@ =~= headers@);
        peer.pending_headers = pending;
        self.peers.insert(pi, peer);
        assert(self.peers@ =~= peers0.update(pi as int, peer));
        proof {
            self.lemma_same_flight_keeps_wf(old(self), pi as int);
        }
    }

    /// Answers a header request from peer `pi`: the headers of the best chain above the
    /// highest block of `locator` that it holds, at most the header count limit. The peer has
    /// that block, and will have the headers sent, so its best known block rises to the last
    /// of them. A locator longer than the limit, genesis included, is misbehavior.
    pub fn handle_header_list_request(
        &mut self,
        pi: usize,
        chain: &ChainView,
        locator: &Vec<BlockId>,
    ) -> (r: Result<Vec<Header>, Misbehavior>)
        requires
            old(self).wf(),
            chain.wf(),
            pi < old(self).peers@.len(),
        ensures
            final(self).wf(),
            final(self).config == old(self).config,
            final(self).globally_in_flight@ == old(self).globally_in_flight@,
            final(self).others_kept(old(self), pi as int),
            final(self).best_known_kept(old(self)),
            final(self).peers@[pi as int].peer_id == old(self).peers@[pi as int].peer_id,
            final(self).peers@[pi as int].pending_headers@ == old(self).peers@[pi as int].pending_headers@,
            locator@.len() > old(self).config.msg_max_locator_count + 1 ==> r == Err::<
                Vec<Header>,
                Misbehavior,
            >(Misbehavior::Protocol(ProtocolError::MessageTooLarge)) && final(self).peers@ == old(
                self,
            ).peers@,
            locator@.len() <= old(self).config.msg_max_locator_count + 1 ==> match r {
                Ok(hs) => exists|h: int|
                    #[trigger] is_fork_point(chain@, locator@, h) && hs@ == headers_after_spec(
                        chain@,
                        h,
                        old(self).config.msg_header_count_limit as int,
                    ) && (hs@.len() > 0 ==> hs@[0].prev == chain@[h].id)
                        && final(self).peers@[pi as int].best_known_block == advanced(
                        old(self).peers@[pi as int].best_known_block,
                        BlockRef { id: chain@[h + hs@.len()].id, height: (h + hs@.len()) as u64 },
                    ),
                Err(_) => false,
            },
    {
        if locator.len() > self.config.msg_max_locator_count
            && locator.len() - self.config.msg_max_locator_count > 1 {
            return Err(Misbehavior::Protocol(ProtocolError::MessageTooLarge));
        }
        let h = chain.fork_point(locator);
        let hs = chain.headers_after(h, self.config.msg_header_count_limit);
        let top_h: usize = h + hs.len();
        let top = BlockRef { id: chain.headers[top_h].id, height: top_h as u64 };
        let ghost peers0 = self.peers@;
        let mut peer = self.peers.remove(pi);
        peer.advance_best_known(top);
        self.peers.insert(pi, peer);
        assert(self.peers@ =~= peers0.update(pi as int, peer));
        proof {
            self.lemma_same_flight_keeps_wf(old(self), pi as int);
            assert(is_fork_point(chain@, locator@, h as int));
        }
        Ok(hs)
    }
}

} // verus!
