use block_sync::chain::{BlockId, ChainView, Header};
use block_sync::config::SyncConfig;
use block_sync::error::{Misbehavior, ProtocolError};
use block_sync::headers::HeaderListReaction;
use block_sync::peer::ProtocolVersion;
use block_sync::sync::SyncManager;

fn header(id: BlockId, prev: BlockId) -> Header {
    Header { id, prev, timestamp: 0 }
}

fn chain_of(len: u64) -> ChainView {
    let mut chain = ChainView::new(header(100, 0));
    for id in 101..100 + len {
        chain.push(header(id, id - 1));
    }
    chain
}

/// Headers 601, 602, ... linked on top of block `base`.
fn branch(base: BlockId, n: u64) -> Vec<Header> {
    (0..n).map(|k| header(601 + k, if k == 0 { base } else { 600 + k })).collect()
}

fn manager(max_blocks: usize, peers: &[u64]) -> SyncManager {
    let mut cfg = SyncConfig::new();
    cfg.max_request_blocks_count = max_blocks;
    let mut m = SyncManager::new(cfg);
    for p in peers {
        assert!(m.add_peer(*p, ProtocolVersion::V1, 0));
    }
    m
}

#[test]
fn in_flight_never_exceeds_request_limit() {
    let chain = chain_of(1);
    let mut m = manager(3, &[1]);
    let r = m.handle_header_list(0, &chain, &branch(100, 10), None, 1);
    assert!(matches!(r, HeaderListReaction::Accepted(ref v) if v.len() == 3));
    assert_eq!(m.peers[0].blocks_in_flight.len(), 3);
    assert!(m.schedule(0, &chain, 2).is_empty());
    assert_eq!(m.peers[0].blocks_in_flight.len(), 3);
}

#[test]
fn local_blocks_are_never_requested() {
    let chain = chain_of(4); // 100..103
    let mut m = manager(10, &[1]);
    let hs = vec![header(101, 100), header(102, 101), header(103, 102), header(104, 103)];
    let r = m.handle_header_list(0, &chain, &hs, None, 1);
    match r {
        HeaderListReaction::Accepted(v) => assert_eq!(v, vec![104]),
        other => panic!("unexpected {:?}", other),
    }
}

#[test]
fn best_known_height_never_drops() {
    let chain = chain_of(4);
    let mut m = manager(10, &[1]);
    m.handle_header_list(0, &chain, &vec![header(102, 101), header(103, 102)], None, 1);
    assert_eq!(m.peers[0].best_known_block.unwrap().height, 3);
    m.handle_header_list(0, &chain, &vec![header(101, 100)], None, 2);
    assert_eq!(m.peers[0].best_known_block.unwrap().height, 3);
    m.handle_header_list_request(0, &chain, &vec![100]).unwrap();
    assert_eq!(m.peers[0].best_known_block.unwrap().height, 3);
}

#[test]
fn two_peers_never_download_the_same_block() {
    let chain = chain_of(1);
    let mut m = manager(10, &[1, 2]);
    let r1 = m.handle_header_list(0, &chain, &branch(100, 2), None, 1);
    let r2 = m.handle_header_list(1, &chain, &branch(100, 3), None, 1);
    match (r1, r2) {
        (HeaderListReaction::Accepted(a), HeaderListReaction::Accepted(b)) => {
            assert_eq!(a, vec![601, 602]);
            assert!(b.is_empty());
        }
        other => panic!("unexpected {:?}", other),
    }
    assert_eq!(m.globally_in_flight.len(), 2);
    // once the first peer leaves, its blocks can be asked from the second
    m.remove_peer(0);
    assert!(m.globally_in_flight.is_empty());
    assert_eq!(m.schedule(0, &chain, 2), Vec::<BlockId>::new());
}

#[test]
fn announcement_starts_at_a_block_the_peer_has() {
    let mut chain = chain_of(3);
    let mut m = manager(10, &[1]);
    m.handle_header_list_request(0, &chain, &vec![101, 100]).unwrap();
    chain.push(header(103, 102));
    let hs = m.announce(0, &chain).unwrap();
    assert_eq!(hs[0].prev, 102);
    assert_eq!(m.peers[0].best_known_block.unwrap().id, 102);
}

#[test]
fn header_response_starts_above_the_highest_common_block() {
    let chain = chain_of(6);
    let mut m = manager(10, &[1]);
    let hs = m.handle_header_list_request(0, &chain, &vec![999, 102, 101, 100]).unwrap();
    let ids: Vec<BlockId> = hs.iter().map(|h| h.id).collect();
    assert_eq!(ids, vec![103, 104, 105]);
    assert_eq!(hs[0].prev, 102);
    let hs = m.handle_header_list_request(0, &chain, &vec![998, 999]).unwrap();
    assert_eq!(hs[0].prev, 100);
}

#[test]
fn long_locator_is_too_large() {
    let chain = chain_of(2);
    let mut m = manager(10, &[1]);
    let loc: Vec<BlockId> = (0..102).collect();
    let r = m.handle_header_list_request(0, &chain, &loc);
    assert_eq!(r, Err(Misbehavior::Protocol(ProtocolError::MessageTooLarge)));
}

#[test]
fn locator_samples_at_doubling_offsets() {
    let chain = chain_of(20); // heights 0..19, ids 100..119
    assert_eq!(chain.locator(100), vec![119, 118, 117, 115, 111, 103, 100]);
    assert_eq!(chain.locator(3), vec![119, 118, 117, 100]);
    assert_eq!(chain_of(1).locator(10), vec![100]);
    assert_eq!(chain.header_response(&vec![115], 2).len(), 2);
}

#[test]
fn unsolicited_block_is_misbehavior() {
    let chain = chain_of(1);
    let mut m = manager(10, &[1]);
    m.handle_header_list(0, &chain, &branch(100, 1), None, 1);
    assert_eq!(
        m.handle_block_response(0, 777),
        Err(Misbehavior::Protocol(ProtocolError::UnsolicitedBlock))
    );
    assert_eq!(m.handle_block_response(0, 601), Ok(()));
    assert!(m.globally_in_flight.is_empty());
}

#[test]
fn stalled_request_is_released() {
    let chain = chain_of(1);
    let mut m = manager(10, &[1]);
    m.handle_header_list(0, &chain, &branch(100, 2), None, 100);
    assert_eq!(m.check_stalling(0, 110), None);
    let timeout = m.config.sync_stalling_timeout;
    let r = m.check_stalling(0, 101 + timeout);
    assert_eq!(r, Some(Misbehavior::Protocol(ProtocolError::Stalling)));
    assert_eq!(m.peers[0].blocks_in_flight.len(), 1);
    assert_eq!(m.globally_in_flight.len(), 1);
    assert!(ProtocolError::Stalling.disconnects());
}

#[test]
fn block_requests_are_checked() {
    let chain = chain_of(3);
    let mut m = manager(2, &[1]);
    assert_eq!(
        m.handle_block_list_request(0, &chain, &vec![100, 101, 102]),
        Err(Misbehavior::Protocol(ProtocolError::MessageTooLarge))
    );
    assert_eq!(
        m.handle_block_list_request(0, &chain, &vec![101, 555]),
        Err(Misbehavior::Protocol(ProtocolError::UnknownBlockRequested))
    );
    assert!(m.peers[0].best_known_block.is_none());
    assert!(m.handle_block_list_request(0, &chain, &vec![]).unwrap().is_empty());
}

#[test]
fn duplicate_peer_is_refused() {
    let mut m = manager(2, &[1]);
    assert!(!m.add_peer(1, ProtocolVersion::V2, 5));
    assert_eq!(m.peers.len(), 1);
    assert_eq!(m.peer_index(1), Some(0));
    assert_eq!(m.peer_index(2), None);
}

#[test]
fn removing_a_peer_keeps_other_peers_requests() {
    let chain = chain_of(1);
    let mut m = manager(10, &[1, 2]);
    m.handle_header_list(0, &chain, &branch(100, 2), None, 1);
    m.handle_header_list(1, &chain, &vec![header(701, 100)], None, 1);
    assert_eq!(m.globally_in_flight.len(), 3);
    m.remove_peer(1);
    assert_eq!(m.globally_in_flight.len(), 2);
    assert!(m.globally_in_flight.iter().all(|e| e.peer == 1));
    m.record_activity(0, 42);
    assert_eq!(m.peers[0].last_activity_at, 42);
}
