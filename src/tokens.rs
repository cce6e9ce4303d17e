use vstd::prelude::*;
use crate::chain::BlockId;

verus! {

/// Identifier of a token: its hash, reduced to a 64-bit key.
pub type TokenId = u64;

/// An amount of coins or tokens, in atoms.
#[derive(Debug, Clone, Copy, PartialEq, Eq, Structural, PartialOrd, Ord)]
pub struct Amount {
    pub atoms: u128,
}

/// Version of the token issuance rules.
#[derive(Debug, Clone, Copy, PartialEq, Eq, Structural, PartialOrd, Ord)]
pub struct TokenIssuanceVersion(pub u32);

impl TokenIssuanceVersion {
    /// Initial issuance implementation
    pub fn v0() -> (r: TokenIssuanceVersion)
        ensures
            r.0 == 0,
    {
        TokenIssuanceVersion(0)
    }

    /// Add reissuance support
    pub fn v1() -> (r: TokenIssuanceVersion)
        ensures
            r.0 == 1,
    {
        TokenIssuanceVersion(1)
    }

    /// The rules in force.
    pub fn current() -> (r: TokenIssuanceVersion)
        ensures
            r.0 == 1,
    {
        TokenIssuanceVersion::v1()
    }
}

/// Who may spend an output.
#[derive(Debug, Clone, PartialEq, Eq, PartialOrd, Ord)]
pub enum Destination {
    AnyoneCanSpend,
    PublicKeyHash(Vec<u8>),
    PublicKey(Vec<u8>),
    ScriptHash(Vec<u8>),
    ClassicMultisig(Vec<u8>),
}

/// A transfer of tokens to another user.
#[derive(Debug, Clone, Copy, PartialEq, Eq, Structural, PartialOrd, Ord)]
pub struct TokenTransfer {
    pub token_id: TokenId,
    pub amount: Amount,
}

/// Creation of a fungible token.
#[derive(Debug, Clone, PartialEq, Eq, PartialOrd, Ord)]
pub struct TokenIssuance {
    pub token_ticker: Vec<u8>,
    pub amount_to_issue: Amount,
    pub number_of_decimals: u8,
    pub metadata_uri: Vec<u8>,
}

/// How many tokens may ever exist.
#[derive(Debug, Clone, Copy, PartialEq, Eq, Structural, PartialOrd, Ord)]
pub enum TokenTotalSupply {
    /// Fixed to a certain amount.
    Fixed(Amount),
    /// Not known in advance but can be locked at some point in time.
    Lockable,
    /// Limited only by the amount type.
    Unlimited,
}

/// Creation of a fungible token with supply control.
#[derive(Debug, Clone, PartialEq, Eq, PartialOrd, Ord)]
pub struct TokenIssuanceV1 {
    pub token_ticker: Vec<u8>,
    pub number_of_decimals: u8,
    pub metadata_uri: Vec<u8>,
    pub supply_limit: TokenTotalSupply,
    pub reissuance_controller: Destination,
}

/// Creation of a non-fungible token.
#[derive(Debug, Clone, PartialEq, Eq, PartialOrd, Ord)]
pub struct NftIssuance {
    pub name: Vec<u8>,
    pub ticker: Vec<u8>,
    pub metadata_uri: Vec<u8>,
}

/// Issuance of more units of an existing token.
#[derive(Debug, Clone, Copy, PartialEq, Eq, Structural, PartialOrd, Ord)]
pub struct TokenReissuanceV1 {
    pub token_id: TokenId,
    pub amount_to_issue: Amount,
}

/// What a token output does.
#[derive(Debug, Clone, PartialEq, Eq)]
pub enum TokenData {
    /// TokenTransfer data to another user.
    TokenTransfer(TokenTransfer),
    /// New token creation
    TokenIssuance(Box<TokenIssuance>),
    /// A new NFT creation
    NftIssuance(Box<NftIssuance>),
    /// New token creation with supply support
    TokenIssuanceV1(Box<TokenIssuanceV1>),
    /// More units of an existing token
    TokenReissuanceV1(TokenReissuanceV1),
}

/// What an output carries: coins, or tokens.
#[derive(Debug, Clone, PartialEq, Eq)]
pub enum OutputValue {
    Coin(Amount),
    Token(Box<TokenData>),
}

/// An output of a transaction.
#[derive(Debug, Clone, PartialEq, Eq)]
pub enum TxOutput {
    Transfer(OutputValue, Destination),
    LockThenTransfer(OutputValue, Destination, u64),
    Burn(OutputValue),
    CreateStakePool(u64, Amount),
    ProduceBlockFromStake(Destination, u64),
    CreateDelegationId(Destination, u64),
    DelegateStaking(Amount, u64),
}

/// A reference to an output of an earlier transaction.
#[derive(Debug, Clone, Copy, PartialEq, Eq, Structural)]
pub struct OutPoint {
    pub tx: u64,
    pub index: u32,
}

/// A transaction: the outputs it spends and the outputs it creates.
#[derive(Debug, Clone, PartialEq, Eq)]
pub struct Transaction {
    pub version_byte: u8,
    pub flags: u32,
    pub lock_time: u32,
    pub inputs: Vec<OutPoint>,
    pub outputs: Vec<TxOutput>,
}

/// Where a token was issued: the issuing transaction and the block that holds it.
#[derive(Debug, Clone, PartialEq, Eq)]
pub struct TokenAuxiliaryData {
    issuance_tx: Transaction,
    issuance_block_id: BlockId,
}

impl TokenAuxiliaryData {
    pub closed spec fn tx(&self) -> Transaction {
        self.issuance_tx
    }

    pub closed spec fn block_id(&self) -> BlockId {
        self.issuance_block_id
    }

    pub fn new(issuance_tx: Transaction, issuance_block_id: BlockId) -> (r: TokenAuxiliaryData)
        ensures
            r.tx() == issuance_tx,
            r.block_id() == issuance_block_id,
    {
        TokenAuxiliaryData { issuance_tx, issuance_block_id }
    }

    pub fn issuance_tx(&self) -> (r: &Transaction)
        ensures
            *r == self.tx(),
    {
        &self.issuance_tx
    }

    pub fn issuance_block_id(&self) -> (r: BlockId)
        ensures
            r == self.block_id(),
    {
        self.issuance_block_id
    }
}

/// The value an output moves, for the outputs that move one.
pub open spec fn moved_value(o: TxOutput) -> Option<OutputValue> {
    match o {
        TxOutput::Transfer(v, _) => Some(v),
        TxOutput::LockThenTransfer(v, _, _) => Some(v),
        TxOutput::Burn(v) => Some(v),
        _ => None,
    }
}

/// True when `o` creates a token or an NFT.
pub open spec fn issues_token(o: TxOutput) -> bool {
    match moved_value(o) {
        Some(OutputValue::Token(data)) => match *data {
            TokenData::TokenIssuance(_) => true,
            TokenData::NftIssuance(_) => true,
            TokenData::TokenIssuanceV1(_) => true,
            _ => false,
        },
        _ => false,
    }
}

/// True when `o` issues more units of an existing token.
pub open spec fn reissues_token(o: TxOutput) -> bool {
    match moved_value(o) {
        Some(OutputValue::Token(data)) => match *data {
            TokenData::TokenReissuanceV1(_) => true,
            _ => false,
        },
        _ => false,
    }
}

/// Number of outputs of `s` that create a token or an NFT.
pub open spec fn issuance_count(s: Seq<TxOutput>) -> nat
    decreases s.len(),
{
    if s.len() == 0 {
        0
    } else {
        issuance_count(s.drop_last()) + if issues_token(s.last()) {
            1nat
        } else {
            0nat
        }
    }
}

/// Number of outputs of `s` that reissue a token.
pub open spec fn reissuance_count(s: Seq<TxOutput>) -> nat
    decreases s.len(),
{
    if s.len() == 0 {
        0
    } else {
        reissuance_count(s.drop_last()) + if reissues_token(s.last()) {
            1nat
        } else {
            0nat
        }
    }
}

pub fn is_token_or_nft_issuance(output: &TxOutput) -> (r: bool)
    ensures
        r == issues_token(*output),
{
    let v = match output {
        TxOutput::Transfer(v, _) => v,
        TxOutput::LockThenTransfer(v, _, _) => v,
        TxOutput::Burn(v) => v,
        _ => {
            return false;
        },
    };
    match v {
        OutputValue::Token(data) => match &**data {
            TokenData::TokenIssuance(_) => true,
            TokenData::NftIssuance(_) => true,
            TokenData::TokenIssuanceV1(_) => true,
            TokenData::TokenTransfer(_) => false,
            TokenData::TokenReissuanceV1(_) => false,
        },
        OutputValue::Coin(_) => false,
    }
}

pub fn is_token_reissuance(output: &TxOutput) -> (r: bool)
    ensures
        r == reissues_token(*output),
{
    let v = match output {
        TxOutput::Transfer(v, _) => v,
        TxOutput::LockThenTransfer(v, _, _) => v,
        TxOutput::Burn(v) => v,
        _ => {
            return false;
        },
    };
    match v {
        OutputValue::Token(data) => match &**data {
            TokenData::TokenReissuanceV1(_) => true,
            TokenData::TokenTransfer(_) => false,
            TokenData::TokenIssuance(_) => false,
            TokenData::NftIssuance(_) => false,
            TokenData::TokenIssuanceV1(_) => false,
        },
        OutputValue::Coin(_) => false,
    }
}

pub fn get_tokens_issuance_count(outputs: &[TxOutput]) -> (r: usize)
    ensures
        r == issuance_count(outputs@),
{
    let mut count: usize = 0;
    let mut i: usize = 0;
    while i < outputs.len()
        invariant
            i <= outputs@.len(),
            count <= i,
            count == issuance_count(outputs@.subrange(0, i as int)),
        decreases outputs@.len() - i,
    {
        assert(outputs@.subrange(0, i + 1).drop_last() =~= outputs@.subrange(0, i as int));
        if is_token_or_nft_issuance(&outputs[i]) {
            count = count + 1;
        }
        i = i + 1;
    }
    assert(outputs@.subrange(0, i as int) =~= outputs@);
    count
}

pub fn get_tokens_reissuance_count(outputs: &[TxOutput]) -> (r: usize)
    ensures
        r == reissuance_count(outputs@),
{
    let mut count: usize = 0;
    let mut i: usize = 0;
    while i < outputs.len()
        invariant
            i <= outputs@.len(),
            count <= i,
            count == reissuance_count(outputs@.subrange(0, i as int)),
        decreases outputs@.len() - i,
    {
        assert(outputs@.subrange(0, i + 1).drop_last() =~= outputs@.subrange(0, i as int));
        if is_token_reissuance(&outputs[i]) {
            count = count + 1;
        }
        i = i + 1;
    }
    assert(outputs@.subrange(0, i as int) =~= outputs@);
    count
}

} // verus!
