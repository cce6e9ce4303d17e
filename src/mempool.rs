use vstd::prelude::*;
use crate::chain::BlockId;
use crate::height::BlockHeight;

verus! {

/// Events the mempool broadcasts.
#[derive(Debug, Clone, Copy, PartialEq, Eq, Structural)]
pub enum MempoolEvent {
    /// The chain tip the mempool works against changed.
    NewTip(BlockId, BlockHeight),
}

/// Where an accepted transaction went.
#[derive(Debug, Clone, Copy, PartialEq, Eq, Structural, PartialOrd, Ord)]
pub enum TxStatus {
    /// Transaction is in mempool
    InMempool,
    /// Transaction is in orphan pool
    InOrphanPool,
}

impl TxStatus {
    pub fn in_mempool(&self) -> (r: bool)
        ensures
            r == (*self == TxStatus::InMempool),
    {
        match self {
            TxStatus::InMempool => true,
            TxStatus::InOrphanPool => false,
        }
    }

    pub fn in_orphan_pool(&self) -> (r: bool)
        ensures
            r == (*self == TxStatus::InOrphanPool),
    {
        match self {
            TxStatus::InMempool => false,
            TxStatus::InOrphanPool => true,
        }
    }
}

} // verus!
