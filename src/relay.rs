use vstd::prelude::*;

verus! {

/// Identifier of a transaction: its hash, reduced to a 64-bit key.
pub type TxId = u64;

/// A transaction announcement waiting for its due time (in milliseconds).
#[derive(Debug, Clone, Copy, PartialEq, Eq, Structural)]
pub struct DueTx {
    pub due: u64,
    pub tx: TxId,
}

/// The order announcements leave in: by due time, then by transaction id.
pub open spec fn due_le(a: DueTx, b: DueTx) -> bool {
    a.due < b.due || (a.due == b.due && a.tx <= b.tx)
}

/// True when `s[k]` comes first in `s` by due time and id.
pub open spec fn is_first(s: Seq<DueTx>, k: int) -> bool {
    &&& 0 <= k < s.len()
    &&& forall|j: int| 0 <= j < s.len() ==> due_le(s[k], #[trigger] s[j])
}

/// Transaction announcements queued for one peer, released in order of due time. At most
/// `limit` are queued; more are dropped.
pub struct PendingTransactions {
    pub txs: Vec<DueTx>,
    pub limit: usize,
}

impl PendingTransactions {
    pub open spec fn view(&self) -> Seq<DueTx> {
        self.txs@
    }

    /// An empty queue without a practical bound.
    pub fn new() -> (r: PendingTransactions)
        ensures
            r@.len() == 0,
            r.limit == usize::MAX,
    {
        PendingTransactions { txs: Vec::new(), limit: usize::MAX }
    }

    /// An empty queue that holds at most `limit` announcements.
    pub fn with_limit(limit: usize) -> (r: PendingTransactions)
        ensures
            r@.len() == 0,
            r.limit == limit,
    {
        PendingTransactions { txs: Vec::new(), limit }
    }

    pub fn len(&self) -> (r: usize)
        ensures
            r == self@.len(),
    {
        self.txs.len()
    }

    /// Queues `tx` for announcement at `due_time`; dropped when the queue is full.
    pub fn push(&mut self, tx: TxId, due_time: u64) -> (r: bool)
        ensures
            r == (old(self)@.len() < old(self).limit),
            r ==> final(self)@ == old(self)@.push(DueTx { due: due_time, tx }),
            !r ==> final(self)@ == old(self)@,
            final(self).limit == old(self).limit,
    {
        if self.txs.len() < self.limit {
            self.txs.push(DueTx { due: due_time, tx });
            true
        } else {
            false
        }
    }

    /// Position of the announcement that leaves first.
    fn first_index(&self) -> (r: usize)
        requires
            self@.len() > 0,
        ensures
            is_first(self@, r as int),
    {
        let mut best: usize = 0;
        let mut k: usize = 1;
        while k < self.txs.len()
            invariant
                1 <= k <= self@.len(),
                best < k,
                forall|j: int| 0 <= j < k ==> due_le(self@[best as int], #[trigger] self@[j]),
            decreases self@.len() - k,
        {
            let a = self.txs[best];
            let b = self.txs[k];
            if b.due < a.due || (b.due == a.due && b.tx < a.tx) {
                best = k;
            }
            k = k + 1;
        }
        best
    }

    /// Due time of the announcement that leaves first; none when the queue is empty.
    pub fn next_due(&self) -> (r: Option<u64>)
        ensures
            r.is_none() == (self@.len() == 0),
            r.is_some() ==> exists|k: int| is_first(self@, k) && #[trigger] self@[k].due == r.unwrap(),
    {
        if self.txs.len() == 0 {
            None
        } else {
            let k = self.first_index();
            Some(self.txs[k].due)
        }
    }

    /// True when the first announcement is due at time `now`.
    pub fn is_due(&self, now: u64) -> (r: bool)
        ensures
            r == (exists|k: int| is_first(self@, k) && #[trigger] self@[k].due <= now),
    {
        if self.txs.len() == 0 {
            false
        } else {
            let k = self.first_index();
            proof {
                assert forall|j: int| is_first(self@, j) implies self@[j].due == self@[k as int].due by {
                    assert(due_le(self@[j], self@[k as int]));
                    assert(due_le(self@[k as int], self@[j]));
                }
            }
            self.txs[k].due <= now
        }
    }

    /// Takes out the announcement that leaves first and returns its transaction.
    pub fn pop(&mut self) -> (r: Option<TxId>)
        ensures
            r.is_none() == (old(self)@.len() == 0),
            r.is_none() ==> final(self)@ == old(self)@,
            r.is_some() ==> exists|k: int|
                is_first(old(self)@, k) && #[trigger] old(self)@[k].tx == r.unwrap() && final(self)@
                    == old(self)@.remove(k),
            final(self).limit == old(self).limit,
    {
        if self.txs.len() == 0 {
            return None;
        }
        let k = self.first_index();
        let e = self.txs.remove(k);
        Some(e.tx)
    }
}

} // verus!
