use vstd::prelude::*;
use crate::chain::BlockId;
use crate::height::BlockHeight;
use crate::tokens::{Amount, TokenId};

verus! {

/// Errors of the wallet RPC argument checks.
#[derive(Debug, Clone, Copy, PartialEq, Eq, Structural)]
pub enum RpcError {
    /// Account index out of supported range
    AcctIndexOutOfRange,
    /// Invalid coin amount
    InvalidCoinAmount,
    /// Invalid address
    InvalidAddress,
}

/// Arguments of a call that takes none.
#[derive(Debug, Clone, Copy, PartialEq, Eq, Structural, Default)]
pub struct EmptyArgs {}

/// An account number given to an RPC call.
#[derive(Debug, Clone, Copy, PartialEq, Eq, Structural)]
pub struct AccountIndexArg {
    pub account: u32,
}

/// Account indices are 31-bit numbers.
pub const ACCOUNT_INDEX_BOUND: u32 = 0x8000_0000;

impl AccountIndexArg {
    /// The account index, which must fit in 31 bits.
    pub fn index(&self) -> (r: Result<u32, RpcError>)
        ensures
            self.account < ACCOUNT_INDEX_BOUND ==> r == Ok::<u32, RpcError>(self.account),
            self.account >= ACCOUNT_INDEX_BOUND ==> r == Err::<u32, RpcError>(
                RpcError::AcctIndexOutOfRange,
            ),
    {
        if self.account < ACCOUNT_INDEX_BOUND {
            Ok(self.account)
        } else {
            Err(RpcError::AcctIndexOutOfRange)
        }
    }
}

/// A block of the chain by id and height.
#[derive(Debug, Clone, Copy, PartialEq, Eq, Structural)]
pub struct BlockInfo {
    pub id: BlockId,
    pub height: BlockHeight,
}

impl BlockInfo {
    pub fn from_tuple(t: (BlockId, BlockHeight)) -> (r: BlockInfo)
        ensures
            r.id == t.0,
            r.height == t.1,
    {
        BlockInfo { id: t.0, height: t.1 }
    }
}

/// An address of the wallet with its derivation index, both as text.
#[derive(Debug, Clone, PartialEq, Eq)]
pub struct AddressInfo {
    pub address: String,
    pub index: String,
}

/// An address of the wallet, its derivation index, and whether it was used.
#[derive(Debug, Clone, PartialEq, Eq)]
pub struct AddressWithUsageInfo {
    pub address: String,
    pub index: String,
    pub used: bool,
}

/// Balance of an account: its coins and, per token, its tokens.
#[derive(Debug, Clone, PartialEq, Eq)]
pub struct BalanceInfo {
    pub coins: Amount,
    pub tokens: Vec<(TokenId, Amount)>,
}

} // verus!
