use block_sync::cached_operation::{combine, CachedOperation};
use block_sync::config::{P2pConfig, SyncConfig};
use block_sync::error::{classify_exit, TaskExit};
use block_sync::height::BlockHeight;
use block_sync::mempool::TxStatus;
use block_sync::message::SignedArbitraryMessage;
use block_sync::peer::{next_peer_state, PeerState};
use block_sync::relay::PendingTransactions;
use block_sync::rpc_types::{AccountIndexArg, BlockInfo, RpcError};
use block_sync::tokens::{
    get_tokens_issuance_count, get_tokens_reissuance_count, is_token_or_nft_issuance, Amount,
    Destination, OutPoint, OutputValue, TokenData, TokenIssuance, TokenReissuanceV1, TokenTransfer,
    Transaction, TxOutput,
};
use block_sync::signature::{
    verify_signature, InputWitness, Signable, SignedTransaction, StandardInputSignature,
    TransactionSigError,
};
use block_sync::setup::{bind_plan, select_transport, BindPlan, ConfigProblem, TransportKind};
use block_sync::transport::{IdentityStreamAdapter, IdentityStreamKey};

#[test]
fn block_height_arithmetic() {
    assert_eq!(BlockHeight::new(5).inner(), 5);
    assert_eq!(BlockHeight::zero().inner(), 0);
    assert_eq!(BlockHeight::one().inner(), 1);
    assert_eq!(BlockHeight::max().inner(), u64::MAX);
    assert_eq!(BlockHeight::new(5).checked_add(3), Some(BlockHeight::new(8)));
    assert_eq!(BlockHeight::max().checked_add(1), None);
    let mut h = BlockHeight::new(9);
    h.increment();
    assert_eq!(h, BlockHeight::new(10));
    assert_eq!(h.next_height(), BlockHeight::new(11));
}

#[test]
fn cached_operations_combine() {
    assert_eq!(combine::<u32>(None, None), None);
    assert_eq!(combine(Some(CachedOperation::Write(1)), None), Some(CachedOperation::Write(1)));
    assert_eq!(combine(None, Some(CachedOperation::Read(2))), Some(CachedOperation::Read(2)));
    assert_eq!(
        combine(Some(CachedOperation::Write(1)), Some(CachedOperation::Erase)),
        Some(CachedOperation::Erase)
    );
    assert_eq!(
        combine(Some(CachedOperation::Erase), Some(CachedOperation::Write(3))),
        Some(CachedOperation::Write(3))
    );
    assert_eq!(
        combine(Some(CachedOperation::Read(1)), Some(CachedOperation::Read(4))),
        Some(CachedOperation::Read(4))
    );
    assert_eq!(CachedOperation::Read(7).get(), Some(&7));
    assert_eq!(CachedOperation::<u8>::Erase.take(), None);
    assert_eq!(CachedOperation::Write(8).take(), Some(8));
}

#[test]
fn tx_status_queries() {
    assert!(TxStatus::InMempool.in_mempool());
    assert!(!TxStatus::InMempool.in_orphan_pool());
    assert!(TxStatus::InOrphanPool.in_orphan_pool());
}

#[test]
fn default_configs() {
    let p = P2pConfig::new();
    assert_eq!(p.address, "/ip6/::1/tcp/3031");
    assert_eq!(p.ban_threshold, 100);
    assert_eq!(p.timeout, 10);
    let s = SyncConfig::new();
    assert_eq!(s.max_request_blocks_count, 500);
}

#[test]
fn signature_as_hex() {
    let m = SignedArbitraryMessage::from_data(vec![0x00, 0xab, 0x1f, 0xff]);
    assert_eq!(m.to_hex(), "00ab1fff");
    assert_eq!(SignedArbitraryMessage::from_data(vec![]).to_hex(), "");
}

#[test]
fn account_index_range() {
    assert_eq!(AccountIndexArg { account: 5 }.index(), Ok(5));
    assert_eq!(AccountIndexArg { account: 0x7fff_ffff }.index(), Ok(0x7fff_ffff));
    assert_eq!(AccountIndexArg { account: 0x8000_0000 }.index(), Err(RpcError::AcctIndexOutOfRange));
    let b = BlockInfo::from_tuple((9, BlockHeight::new(3)));
    assert_eq!(b.id, 9);
    assert_eq!(b.height.inner(), 3);
}

#[test]
fn token_output_counts() {
    let issuance = TxOutput::Transfer(
        OutputValue::Token(Box::new(TokenData::TokenIssuance(Box::new(TokenIssuance {
            token_ticker: b"TKN".to_vec(),
            amount_to_issue: Amount { atoms: 1000 },
            number_of_decimals: 2,
            metadata_uri: vec![],
        })))),
        Destination::AnyoneCanSpend,
    );
    let reissuance = TxOutput::Burn(OutputValue::Token(Box::new(TokenData::TokenReissuanceV1(
        TokenReissuanceV1 { token_id: 4, amount_to_issue: Amount { atoms: 5 } },
    ))));
    let transfer = TxOutput::Transfer(
        OutputValue::Token(Box::new(TokenData::TokenTransfer(TokenTransfer {
            token_id: 4,
            amount: Amount { atoms: 1 },
        }))),
        Destination::PublicKey(vec![1, 2]),
    );
    let coin = TxOutput::LockThenTransfer(OutputValue::Coin(Amount { atoms: 3 }), Destination::AnyoneCanSpend, 10);
    let outputs = vec![issuance.clone(), reissuance, transfer, coin, issuance.clone(), TxOutput::DelegateStaking(Amount { atoms: 1 }, 2)];
    assert!(is_token_or_nft_issuance(&issuance));
    assert_eq!(get_tokens_issuance_count(&outputs), 2);
    assert_eq!(get_tokens_reissuance_count(&outputs), 1);
    assert_eq!(get_tokens_issuance_count(&[]), 0);
}

#[test]
fn pending_transactions_leave_by_due_time() {
    let mut q = PendingTransactions::with_limit(3);
    assert_eq!(q.next_due(), None);
    assert!(q.push(11, 50));
    assert!(q.push(12, 20));
    assert!(q.push(10, 20));
    assert!(!q.push(13, 1));
    assert_eq!(q.len(), 3);
    assert_eq!(q.next_due(), Some(20));
    assert!(!q.is_due(19));
    assert!(q.is_due(20));
    assert_eq!(q.pop(), Some(10));
    assert_eq!(q.pop(), Some(12));
    assert_eq!(q.pop(), Some(11));
    assert_eq!(q.pop(), None);
    let mut unbounded = PendingTransactions::new();
    assert!(unbounded.push(1, 1));
}

#[test]
fn peer_state_and_task_exit() {
    assert_eq!(next_peer_state(PeerState::Initial, true, false), PeerState::HeaderExchange);
    assert_eq!(next_peer_state(PeerState::HeaderExchange, false, true), PeerState::Steady);
    assert_eq!(next_peer_state(PeerState::Steady, true, false), PeerState::Steady);
    assert_eq!(classify_exit(true, true), TaskExit::Clean);
    assert_eq!(classify_exit(true, false), TaskExit::Failed);
    assert_eq!(classify_exit(false, true), TaskExit::Failed);
}

#[test]
fn identity_adapter_keeps_stream() {
    let key = IdentityStreamKey::gen_new();
    assert_eq!(IdentityStreamAdapter::handshake(&key, 42u8), 42);
}

#[test]
fn transport_selection() {
    assert_eq!(select_transport(None, false, false), Ok(TransportKind::NoiseTcp));
    assert_eq!(select_transport(Some(false), false, true), Ok(TransportKind::NoiseSocks5));
    assert_eq!(select_transport(Some(true), true, false), Ok(TransportKind::UnencryptedTcp));
    assert_eq!(select_transport(Some(true), false, false), Err(ConfigProblem::EncryptionOffOutsideRegtest));
    assert_eq!(select_transport(Some(true), true, true), Err(ConfigProblem::ProxyWithoutEncryption));
    assert_eq!(
        ConfigProblem::EncryptionOffOutsideRegtest.describe(),
        "P2P encryption can only be disabled on the regtest network"
    );
    assert_eq!(bind_plan(2, 3031, true), BindPlan::Given);
    assert_eq!(bind_plan(0, 3031, false), BindPlan::AnyOnPort(3031));
    assert_eq!(bind_plan(0, 3031, true), BindPlan::Nothing);
}

fn signed_tx(witnesses: Vec<InputWitness>) -> SignedTransaction {
    SignedTransaction {
        transaction: Transaction {
            version_byte: 1,
            flags: 0,
            lock_time: 0,
            inputs: vec![OutPoint { tx: 1, index: 0 }, OutPoint { tx: 2, index: 1 }],
            outputs: vec![],
        },
        signatures: witnesses,
    }
}

#[test]
fn signature_dispatch() {
    let standard = InputWitness::Standard(StandardInputSignature { sighash_type: 1, raw_signature: vec![7] });
    let tx = signed_tx(vec![InputWitness::NoSignature(None), standard]);
    let anyone = Destination::AnyoneCanSpend;
    let key = Destination::PublicKey(vec![3]);
    assert_eq!(verify_signature(&anyone, &tx, 0, Err(TransactionSigError::SignatureVerificationFailed)), Ok(()));
    assert_eq!(verify_signature(&key, &tx, 0, Ok(())), Err(TransactionSigError::SignatureNotFound));
    assert_eq!(verify_signature(&key, &tx, 1, Ok(())), Ok(()));
    assert_eq!(
        verify_signature(&key, &tx, 1, Err(TransactionSigError::SignatureVerificationFailed)),
        Err(TransactionSigError::SignatureVerificationFailed)
    );
    assert_eq!(verify_signature(&key, &tx, 5, Ok(())), Err(TransactionSigError::InvalidSignatureIndex(5, 2)));
    assert_eq!(tx.version_byte(), Some(1));
    assert_eq!(tx.inputs().map(|i| i.len()), Some(2));
}
