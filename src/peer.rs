use vstd::prelude::*;
use crate::chain::{BlockId, BlockRef, Header};

verus! {

/// Identifier the peer manager gives a connection.
pub type PeerId = u64;

/// Negotiated protocol version of a peer.
#[derive(Debug, Clone, Copy, PartialEq, Eq, Structural)]
pub enum ProtocolVersion {
    /// Tolerates a configured number of lone unconnected headers.
    V1,
    /// Penalises the first lone unconnected header.
    V2,
}

/// Stage of the conversation with a peer.
#[derive(Debug, Clone, Copy, PartialEq, Eq, Structural)]
pub enum PeerState {
    /// Connected; our header request is not sent yet.
    Initial,
    /// Our header request is out; waiting for the first header list.
    HeaderExchange,
    /// The first header list arrived; every message is accepted.
    Steady,
}

/// The state after an event of the per-peer state machine. Only a header request that we
/// send and a header list that arrives move it forward.
pub open spec fn next_peer_state_spec(
    state: PeerState,
    sent_header_request: bool,
    got_header_list: bool,
) -> PeerState {
    if got_header_list {
        PeerState::Steady
    } else if sent_header_request && state == PeerState::Initial {
        PeerState::HeaderExchange
    } else {
        state
    }
}

pub fn next_peer_state(state: PeerState, sent_header_request: bool, got_header_list: bool) -> (r:
    PeerState)
    ensures
        r == next_peer_state_spec(state, sent_header_request, got_header_list),
{
    if got_header_list {
        PeerState::Steady
    } else if sent_header_request && state == PeerState::Initial {
        PeerState::HeaderExchange
    } else {
        state
    }
}

/// A block requested from a peer, with the time of the request.
#[derive(Debug, Clone, Copy, PartialEq, Eq, Structural)]
pub struct InFlightBlock {
    pub id: BlockId,
    pub requested_at: u64,
}

/// Height of an optional best known block; -1 when there is none.
pub open spec fn best_height(b: Option<BlockRef>) -> int {
    match b {
        Some(r) => r.height as int,
        None => -1,
    }
}

/// The best known block after learning that the peer has `b`: it moves only upward.
pub open spec fn advanced(best: Option<BlockRef>, b: BlockRef) -> Option<BlockRef> {
    if b.height > best_height(best) {
        Some(b)
    } else {
        best
    }
}

/// True when some entry of `s` is for block `id`.
pub open spec fn in_flight_has(s: Seq<InFlightBlock>, id: BlockId) -> bool {
    exists|k: int| 0 <= k < s.len() && #[trigger] s[k].id == id
}

/// Ids of the entries of `s` are pairwise distinct.
pub open spec fn in_flight_unique(s: Seq<InFlightBlock>) -> bool {
    forall|a: int, b: int|
        0 <= a < s.len() && 0 <= b < s.len() && a != b ==> #[trigger] s[a].id != #[trigger] s[b].id
}

/// What the sync core knows about one connected peer.
pub struct PeerContext {
    pub peer_id: PeerId,
    pub protocol_version: ProtocolVersion,
    pub state: PeerState,
    /// The highest block the peer is known to have.
    pub best_known_block: Option<BlockRef>,
    /// Blocks requested from this peer and not yet delivered.
    pub blocks_in_flight: Vec<InFlightBlock>,
    /// Headers the peer announced whose blocks are not requested yet.
    pub pending_headers: Vec<Header>,
    /// The last header sent to the peer in an announcement.
    pub known_headers_sent: Option<BlockId>,
    /// Lone unconnected headers received since the last connected header list.
    pub singular_unconnected_headers_count: u32,
    /// Time of the last message from the peer.
    pub last_activity_at: u64,
}

impl PeerContext {
    /// The context of a peer that has just connected.
    pub fn new(peer_id: PeerId, protocol_version: ProtocolVersion, now: u64) -> (r: PeerContext)
        ensures
            r.peer_id == peer_id,
            r.protocol_version == protocol_version,
            r.state == PeerState::Initial,
            r.best_known_block.is_none(),
            r.blocks_in_flight@.len() == 0,
            r.pending_headers@.len() == 0,
            r.known_headers_sent.is_none(),
            r.singular_unconnected_headers_count == 0,
            r.last_activity_at == now,
    {
        PeerContext {
            peer_id,
            protocol_version,
            state: PeerState::Initial,
            best_known_block: None,
            blocks_in_flight: Vec::new(),
            pending_headers: Vec::new(),
            known_headers_sent: None,
            singular_unconnected_headers_count: 0,
            last_activity_at: now,
        }
    }

    /// Records that the peer has block `b`; the best known block never moves down.
    pub fn advance_best_known(&mut self, b: BlockRef)
        ensures
            final(self).best_known_block == advanced(old(self).best_known_block, b),
            best_height(old(self).best_known_block) <= best_height(final(self).best_known_block),
            final(self).peer_id == old(self).peer_id,
            final(self).protocol_version == old(self).protocol_version,
            final(self).state == old(self).state,
            final(self).blocks_in_flight@ == old(self).blocks_in_flight@,
            final(self).pending_headers@ == old(self).pending_headers@,
            final(self).known_headers_sent == old(self).known_headers_sent,
            final(self).singular_unconnected_headers_count
                == old(self).singular_unconnected_headers_count,
            final(self).last_activity_at == old(self).last_activity_at,
    {
        let higher = match self.best_known_block {
            Some(cur) => b.height > cur.height,
            None => true,
        };
        if higher {
            self.best_known_block = Some(b);
        }
    }

    /// Position of block `id` among the blocks in flight from this peer.
    pub fn in_flight_index(&self, id: BlockId) -> (r: Option<usize>)
        ensures
            match r {
                Some(k) => k < self.blocks_in_flight@.len() && self.blocks_in_flight@[k as int].id
                    == id,
                None => !in_flight_has(self.blocks_in_flight@, id),
            },
    {
        let mut k: usize = 0;
        while k < self.blocks_in_flight.len()
            invariant
                k <= self.blocks_in_flight@.len(),
                forall|j: int| 0 <= j < k ==> self.blocks_in_flight@[j].id != id,
            decreases self.blocks_in_flight@.len() - k,
        {
            if self.blocks_in_flight[k].id == id {
                return Some(k);
            }
            k = k + 1;
        }
        None
    }
}

} // verus!
