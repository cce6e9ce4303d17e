use vstd::prelude::*;

verus! {

/// Identifier of a block: its hash, reduced to a 64-bit key.
pub type BlockId = u64;

/// Largest number of blocks a chain view holds.
pub const MAX_CHAIN_LEN: usize = 4294967295;

/// A block header as carried on the wire: the block's own id, its parent's id and its time.
#[derive(Debug, Clone, Copy, PartialEq, Eq, Structural)]
pub struct Header {
    pub id: BlockId,
    pub prev: BlockId,
    pub timestamp: u64,
}

/// A block together with its height in the local best chain.
#[derive(Debug, Clone, Copy, PartialEq, Eq, Structural)]
pub struct BlockRef {
    pub id: BlockId,
    pub height: u64,
}

/// True when some header of `chain` has the id `id`.
pub open spec fn chain_has(chain: Seq<Header>, id: BlockId) -> bool {
    exists|i: int| 0 <= i < chain.len() && #[trigger] chain[i].id == id
}

/// Distance below the tip of the `k`-th locator entry: 0, 1, 2, 4, 8, ...
pub open spec fn locator_offset(k: int) -> int
    decreases k,
{
    if k <= 0 {
        0
    } else if k == 1 {
        1
    } else {
        2 * locator_offset(k - 1)
    }
}

/// True when `r` is the locator of `chain` with at most `max_count` sampled ids: the ids at
/// offsets 0, 1, 2, 4, 8, ... below the tip while they stay above genesis, then genesis.
pub open spec fn is_locator(chain: Seq<Header>, max_count: usize, r: Seq<BlockId>) -> bool {
    &&& r.len() >= 1
    &&& r.last() == chain[0].id
    &&& r.len() - 1 <= max_count
    &&& forall|k: int| 0 <= k < r.len() - 1 ==> 0 <= #[trigger] locator_offset(k) < chain.len() - 1
    &&& forall|k: int|
        0 <= k < r.len() - 1 ==> #[trigger] r[k] == chain[chain.len() - 1 - locator_offset(k)].id
    &&& (r.len() - 1 == max_count || locator_offset(r.len() - 1) >= chain.len() - 1)
}

/// True when the height `h` of `chain` is the highest one whose id occurs in `locator`,
/// or genesis when none occurs there.
pub open spec fn is_fork_point(chain: Seq<Header>, locator: Seq<BlockId>, h: int) -> bool {
    &&& 0 <= h < chain.len()
    &&& (h == 0 || locator.contains(chain[h].id))
    &&& forall|i: int| 0 <= i < chain.len() && #[trigger] locator.contains(chain[i].id) ==> i <= h
}

/// The headers that follow height `start` in `chain`, at most `limit` of them.
pub open spec fn headers_after_spec(chain: Seq<Header>, start: int, limit: int) -> Seq<Header> {
    if chain.len() - (start + 1) <= limit {
        chain.subrange(start + 1, chain.len() as int)
    } else {
        chain.subrange(start + 1, start + 1 + limit)
    }
}

/// The local best chain as the sync core sees it: `headers[h]` is the block at height `h`,
/// `headers[0]` is genesis.
pub struct ChainView {
    pub headers: Vec<Header>,
}

impl ChainView {
    pub open spec fn view(&self) -> Seq<Header> {
        self.headers@
    }

    /// Genesis is present, every header links to the one below it, and ids are unique.
    pub open spec fn wf(&self) -> bool {
        &&& 1 <= self@.len() <= MAX_CHAIN_LEN
        &&& forall|i: int| 0 < i < self@.len() ==> #[trigger] self@[i].prev == self@[i - 1].id
        &&& forall|i: int, j: int|
            0 <= i < self@.len() && 0 <= j < self@.len() && i != j ==> #[trigger] self@[i].id
                != #[trigger] self@[j].id
    }

    pub open spec fn has(&self, id: BlockId) -> bool {
        chain_has(self@, id)
    }

    /// A chain that holds only its genesis block.
    pub fn new(genesis: Header) -> (r: ChainView)
        ensures
            r@ == seq![genesis],
            r.wf(),
    {
        ChainView { headers: vec![genesis] }
    }

    pub fn len(&self) -> (r: usize)
        ensures
            r == self@.len(),
    {
        self.headers.len()
    }

    pub fn tip(&self) -> (r: Header)
        requires
            self.wf(),
        ensures
            r == self@.last(),
    {
        self.headers[self.headers.len() - 1]
    }

    pub fn genesis_id(&self) -> (r: BlockId)
        requires
            self.wf(),
        ensures
            r == self@[0].id,
    {
        self.headers[0].id
    }

    /// The height of the block `id` in the best chain, if it is there.
    pub fn find(&self, id: BlockId) -> (r: Option<usize>)
        ensures
            match r {
                Some(h) => h < self@.len() && self@[h as int].id == id,
                None => !self.has(id),
            },
    {
        let mut i: usize = 0;
        while i < self.headers.len()
            invariant
                i <= self@.len(),
                forall|j: int| 0 <= j < i ==> self@[j].id != id,
            decreases self@.len() - i,
        {
            if self.headers[i].id == id {
                return Some(i);
            }
            i = i + 1;
        }
        None
    }

    /// Extends the best chain by one block on top of the tip.
    pub fn push(&mut self, header: Header)
        requires
            old(self).wf(),
            old(self)@.len() < MAX_CHAIN_LEN,
            header.prev == old(self)@.last().id,
            !old(self).has(header.id),
        ensures
            final(self).wf(),
            final(self)@ == old(self)@.push(header),
    {
        self.headers.push(header);
        assert forall|i: int, j: int|
            0 <= i < self@.len() && 0 <= j < self@.len() && i != j implies #[trigger] self@[i].id
            != #[trigger] self@[j].id by {
            if i == self@.len() - 1 {
                assert(old(self)@[j].id == self@[j].id);
            } else if j == self@.len() - 1 {
                assert(old(self)@[i].id == self@[i].id);
            }
        }
    }

    /// Takes the tip off the best chain, as a reorganisation does.
    pub fn disconnect_tip(&mut self) -> (r: Header)
        requires
            old(self).wf(),
            old(self)@.len() > 1,
        ensures
            final(self).wf(),
            r == old(self)@.last(),
            final(self)@ == old(self)@.drop_last(),
    {
        let r = self.headers.pop();
        r.unwrap()
    }

    /// Ids of the best chain sampled from the tip downward at offsets 0, 1, 2, 4, 8, ...,
    /// at most `max_count` of them, followed by genesis.
    pub fn locator(&self, max_count: usize) -> (r: Vec<BlockId>)
        requires
            self.wf(),
        ensures
            is_locator(self@, max_count, r@),
    {
        let tip: usize = self.headers.len() - 1;
        let mut r: Vec<BlockId> = Vec::new();
        let mut step: u128 = 0;
        let mut k: usize = 0;
        while k < max_count && step < tip as u128
            invariant
                self.wf(),
                tip == self@.len() - 1,
                r@.len() == k,
                k <= max_count,
                step == locator_offset(k as int),
                k > 0 ==> step >= 1,
                step <= 2 * tip + 1,
                forall|j: int| 0 <= j < k ==> 0 <= #[trigger] locator_offset(j) < tip,
                forall|j: int| 0 <= j < k ==> #[trigger] r@[j] == self@[tip - locator_offset(j)].id,
            decreases max_count - k,
        {
            let h: usize = (tip as u128 - step) as usize;
            let ghost r0 = r@;
            r.push(self.headers[h].id);
            assert forall|j: int| 0 <= j < k + 1 implies 0 <= locator_offset(j) < tip
                && #[trigger] r@[j] == self@[tip - locator_offset(j)].id by {
                if j < k {
                    assert(r@[j] == r0[j]);
                }
            }
            assert(locator_offset(k + 1) == if k == 0 {
                1
            } else {
                2 * locator_offset(k as int)
            });
            if step == 0 {
                step = 1;
            } else {
                step = step * 2;
            }
            k = k + 1;
        }
        r.push(self.headers[0].id);
        r
    }

    /// Height of the highest block of the best chain whose id occurs in `locator`;
    /// genesis when none does.
    pub fn fork_point(&self, locator: &Vec<BlockId>) -> (r: usize)
        requires
            self.wf(),
        ensures
            is_fork_point(self@, locator@, r as int),
    {
        let mut best: usize = 0;
        let mut k: usize = 0;
        while k < locator.len()
            invariant
                self.wf(),
                k <= locator@.len(),
                best < self@.len(),
                best == 0 || locator@.contains(self@[best as int].id),
                forall|i: int, j: int|
                    #![trigger locator@[j], self@[i]]
                    0 <= i < self@.len() && 0 <= j < k && locator@[j] == self@[i].id ==> i <= best,
            decreases locator@.len() - k,
        {
            match self.find(locator[k]) {
                Some(h) => {
                    if h > best {
                        best = h;
                    }
                    assert forall|i: int, j: int|
                        #![trigger locator@[j], self@[i]]
                        0 <= i < self@.len() && 0 <= j < k + 1 && locator@[j] == self@[i].id
                            implies i <= best by {
                        if j == k {
                            assert(self@[i].id == self@[h as int].id);
                        }
                    }
                },
                None => {
                    assert forall|i: int, j: int|
                        #![trigger locator@[j], self@[i]]
                        0 <= i < self@.len() && 0 <= j < k + 1 && locator@[j] == self@[i].id
                            implies i <= best by {
                        if j == k {
                            assert(chain_has(self@, locator@[k as int]));
                        }
                    }
                },
            }
            k = k + 1;
        }
        assert forall|i: int|
            0 <= i < self@.len() && #[trigger] locator@.contains(self@[i].id) implies i <= best by {
            let j = choose|j: int| 0 <= j < locator@.len() && locator@[j] == self@[i].id;
        }
        best
    }

    /// The headers that follow height `start` in the best chain, at most `limit` of them.
    pub fn headers_after(&self, start: usize, limit: usize) -> (r: Vec<Header>)
        requires
            self.wf(),
            start < self@.len(),
        ensures
            r@ == headers_after_spec(self@, start as int, limit as int),
    {
        let len = self.headers.len();
        let end: usize = if len - (start + 1) <= limit {
            len
        } else {
            start + 1 + limit
        };
        let mut r: Vec<Header> = Vec::new();
        let mut i: usize = start + 1;
        while i < end
            invariant
                start + 1 <= i <= end <= len,
                len == self@.len(),
                r@ == self@.subrange(start + 1, i as int),
            decreases end - i,
        {
            r.push(self.headers[i]);
            assert(r@ =~= self@.subrange(start + 1, i + 1));
            i = i + 1;
        }
        r
    }

    /// The answer to a header request: the headers above the highest block of `locator`
    /// found in the best chain, at most `limit` of them.
    pub fn header_response(&self, locator: &Vec<BlockId>, limit: usize) -> (r: Vec<Header>)
        requires
            self.wf(),
        ensures
            exists|h: int|
                is_fork_point(self@, locator@, h) && r@ == headers_after_spec(self@, h, limit as int),
    {
        let h = self.fork_point(locator);
        self.headers_after(h, limit)
    }
}

} // verus!
