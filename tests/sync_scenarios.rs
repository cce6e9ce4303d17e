use block_sync::chain::{BlockId, ChainView, Header};
use block_sync::config::SyncConfig;
use block_sync::error::{Misbehavior, ProtocolError};
use block_sync::headers::HeaderListReaction;
use block_sync::peer::ProtocolVersion;
use block_sync::sync::SyncManager;

fn header(id: BlockId, prev: BlockId) -> Header {
    Header { id, prev, timestamp: id * 10 }
}

/// A chain of genesis (id 100) followed by blocks 101, 102, ... up to `len` blocks in all.
fn chain_of(len: u64) -> ChainView {
    let mut chain = ChainView::new(header(100, 0));
    for id in 101..100 + len {
        chain.push(header(id, id - 1));
    }
    chain
}

fn config(max_blocks: usize, max_singular: u32) -> SyncConfig {
    let mut cfg = SyncConfig::new();
    cfg.max_request_blocks_count = max_blocks;
    cfg.max_singular_unconnected_headers = max_singular;
    cfg
}

fn manager_with_peer(cfg: SyncConfig, version: ProtocolVersion) -> SyncManager {
    let mut m = SyncManager::new(cfg);
    assert!(m.add_peer(7, version, 0));
    m
}

fn accepted(r: &HeaderListReaction) -> Vec<BlockId> {
    match r {
        HeaderListReaction::Accepted(v) => v.clone(),
        other => panic!("expected an accepted list, got {:?}", other),
    }
}

#[test]
fn single_header_with_unknown_prev_block_v2() {
    let chain = chain_of(1);
    let mut m = manager_with_peer(config(10, 1), ProtocolVersion::V2);
    let r = m.handle_header_list(0, &chain, &vec![header(502, 501)], None, 1);
    assert!(matches!(
        r,
        HeaderListReaction::Misbehaved(Misbehavior::Protocol(ProtocolError::DisconnectedHeaders))
    ));
    assert_eq!(Misbehavior::Protocol(ProtocolError::DisconnectedHeaders).ban_score(), 20);
    assert!(m.globally_in_flight.is_empty());
    assert!(m.peers[0].blocks_in_flight.is_empty());
}

#[test]
fn single_header_with_unknown_prev_block_with_intermittent_connected_headers_v1() {
    let chain = chain_of(1);
    let mut m = manager_with_peer(config(10, 1), ProtocolVersion::V1);
    let r = m.handle_header_list(0, &chain, &vec![header(502, 501)], None, 1);
    match r {
        HeaderListReaction::RequestHeaders(loc) => assert_eq!(loc, vec![100]),
        other => panic!("expected a header request, got {:?}", other),
    }
    let r = m.handle_header_list(0, &chain, &vec![header(601, 100)], None, 2);
    assert_eq!(accepted(&r), vec![601]);
    assert_eq!(m.peers[0].singular_unconnected_headers_count, 0);
    let r = m.handle_header_list(0, &chain, &vec![header(502, 501)], None, 3);
    assert!(matches!(r, HeaderListReaction::RequestHeaders(_)));
}

#[test]
fn single_header_with_unknown_prev_block_v1() {
    let chain = chain_of(1);
    let mut m = manager_with_peer(config(10, 1), ProtocolVersion::V1);
    let r = m.handle_header_list(0, &chain, &vec![header(502, 501)], None, 1);
    assert!(matches!(r, HeaderListReaction::RequestHeaders(_)));
    // the second lone unconnected header is over the tolerance of one
    let r = m.handle_header_list(0, &chain, &vec![header(503, 502)], None, 2);
    assert!(matches!(
        r,
        HeaderListReaction::Misbehaved(Misbehavior::Protocol(ProtocolError::DisconnectedHeaders))
    ));
}

#[test]
fn valid_block() {
    let chain = chain_of(1);
    let mut m = manager_with_peer(config(10, 1), ProtocolVersion::V2);
    let r = m.handle_header_list(0, &chain, &vec![header(601, 100)], None, 1);
    assert_eq!(accepted(&r), vec![601]);
    assert_eq!(m.peers[0].blocks_in_flight.len(), 1);
    assert_eq!(m.globally_in_flight.len(), 1);
}

#[test]
fn invalid_timestamp() {
    let chain = chain_of(1);
    let mut m = manager_with_peer(config(10, 1), ProtocolVersion::V2);
    let r = m.handle_header_list(0, &chain, &vec![header(601, 100)], Some(40), 1);
    match r {
        HeaderListReaction::Misbehaved(mb) => {
            assert_eq!(mb, Misbehavior::Chainstate(40));
            assert_eq!(mb.ban_score(), 40);
        }
        other => panic!("expected misbehavior, got {:?}", other),
    }
    assert!(m.globally_in_flight.is_empty());
}

#[test]
fn multiple_headers_with_unknown_prev_block() {
    let chain = chain_of(1);
    let mut m = manager_with_peer(config(10, 1), ProtocolVersion::V1);
    let r = m.handle_header_list(0, &chain, &vec![header(502, 501), header(503, 502)], None, 1);
    assert!(matches!(
        r,
        HeaderListReaction::Misbehaved(Misbehavior::Protocol(ProtocolError::DisconnectedHeaders))
    ));
}

#[test]
fn header_list_over_limit_is_too_large() {
    let chain = chain_of(1);
    let mut cfg = config(10, 1);
    cfg.msg_header_count_limit = 2;
    let mut m = manager_with_peer(cfg, ProtocolVersion::V1);
    let hs = vec![header(601, 100), header(602, 601), header(603, 602)];
    let r = m.handle_header_list(0, &chain, &hs, None, 1);
    assert!(matches!(
        r,
        HeaderListReaction::Misbehaved(Misbehavior::Protocol(ProtocolError::MessageTooLarge))
    ));
}

#[test]
fn unlinked_header_list_is_disconnected() {
    let chain = chain_of(1);
    let mut m = manager_with_peer(config(10, 1), ProtocolVersion::V1);
    let hs = vec![header(601, 100), header(603, 602)];
    let r = m.handle_header_list(0, &chain, &hs, None, 1);
    assert!(matches!(
        r,
        HeaderListReaction::Misbehaved(Misbehavior::Protocol(ProtocolError::DisconnectedHeaders))
    ));
}

#[test]
fn empty_header_list_is_accepted() {
    let chain = chain_of(1);
    let mut m = manager_with_peer(config(10, 1), ProtocolVersion::V1);
    let r = m.handle_header_list(0, &chain, &vec![], None, 1);
    assert!(accepted(&r).is_empty());
    assert_eq!(m.peers[0].state, block_sync::peer::PeerState::Steady);
}

#[test]
fn best_known_block_is_considered() {
    let mut chain = chain_of(2); // genesis 100 and block 101
    let mut m = manager_with_peer(config(10, 1), ProtocolVersion::V2);
    let r = m.handle_header_list_request(0, &chain, &vec![101, 100]).unwrap();
    assert!(r.is_empty());
    chain.push(header(102, 101));
    chain.push(header(103, 102));
    let ids = |hs: Vec<Header>| hs.iter().map(|h| h.id).collect::<Vec<_>>();
    assert_eq!(ids(m.announce(0, &chain).unwrap()), vec![102, 103]);
    assert!(m.announce(0, &chain).is_none());
    chain.push(header(104, 103));
    chain.push(header(105, 104));
    assert_eq!(ids(m.announce(0, &chain).unwrap()), vec![102, 103, 104, 105]);
    let served = m.handle_block_list_request(0, &chain, &vec![102, 103]).unwrap();
    assert_eq!(served.len(), 2);
    assert_eq!(served[1].height, 3);
    chain.push(header(106, 105));
    chain.push(header(107, 106));
    assert_eq!(ids(m.announce(0, &chain).unwrap()), vec![104, 105, 106, 107]);
    let r = m.handle_header_list(0, &chain, &vec![header(104, 103), header(105, 104)], None, 5);
    assert!(accepted(&r).is_empty());
    chain.push(header(108, 107));
    chain.push(header(109, 108));
    assert_eq!(ids(m.announce(0, &chain).unwrap()), vec![106, 107, 108, 109]);
}

#[test]
fn send_headers_connected_to_previously_sent_headers() {
    let chain = chain_of(1);
    let mut m = manager_with_peer(config(1, 1), ProtocolVersion::V1);
    let r = m.handle_header_list(0, &chain, &vec![header(601, 100), header(602, 601)], None, 1);
    assert_eq!(accepted(&r), vec![601]);
    let r = m.handle_header_list(0, &chain, &vec![header(603, 602), header(604, 603)], None, 2);
    assert!(matches!(
        r,
        HeaderListReaction::Misbehaved(Misbehavior::Protocol(ProtocolError::DisconnectedHeaders))
    ));
}

#[test]
fn send_headers_connected_to_block_which_is_being_downloaded() {
    let chain = chain_of(1);
    let mut m = manager_with_peer(config(1, 1), ProtocolVersion::V1);
    let r = m.handle_header_list(0, &chain, &vec![header(601, 100), header(602, 601)], None, 1);
    assert_eq!(accepted(&r), vec![601]);
    let hs = vec![header(602, 601), header(603, 602), header(604, 603)];
    let r = m.handle_header_list(0, &chain, &hs, None, 2);
    assert!(matches!(
        r,
        HeaderListReaction::Misbehaved(Misbehavior::Protocol(ProtocolError::DisconnectedHeaders))
    ));
}

#[test]
fn correct_pending_headers_update() {
    let mut chain = chain_of(1);
    let mut m = manager_with_peer(config(2, 1), ProtocolVersion::V1);
    let hs: Vec<Header> = (601..605).map(|id| header(id, if id == 601 { 100 } else { id - 1 })).collect();
    let r = m.handle_header_list(0, &chain, &hs[0..3].to_vec(), None, 1);
    assert_eq!(accepted(&r), vec![601, 602]);
    let r = m.handle_header_list(0, &chain, &hs, None, 2);
    assert!(accepted(&r).is_empty());
    assert!(m.handle_block_response(0, 601).is_ok());
    chain.push(hs[0]);
    assert!(m.block_accepted(0, &chain, 601, 3).is_empty());
    assert!(m.handle_block_response(0, 602).is_ok());
    chain.push(hs[1]);
    assert_eq!(m.block_accepted(0, &chain, 602, 4), vec![603, 604]);
    assert_eq!(m.peers[0].best_known_block.unwrap().height, 4);
}

#[test]
fn dont_make_announcements_while_blocks_are_being_sent() {
    let mut chain = chain_of(1);
    let mut m = manager_with_peer(config(10, 1), ProtocolVersion::V1);
    let r = m.handle_header_list(0, &chain, &vec![header(601, 100)], None, 1);
    assert_eq!(accepted(&r), vec![601]);
    chain.push(header(701, 100));
    assert!(m.announce(0, &chain).is_none());
    assert!(m.handle_block_response(0, 601).is_ok());
    let hs = m.announce(0, &chain).unwrap();
    assert_eq!(hs, vec![header(701, 100)]);
    assert_eq!(m.peers[0].known_headers_sent, Some(701));
}

#[test]
fn invalid_consensus_data() {
    let chain = chain_of(1);
    let mut m = manager_with_peer(config(10, 1), ProtocolVersion::V1);
    let r = m.handle_header_list(0, &chain, &vec![header(601, 100)], Some(100), 1);
    match r {
        HeaderListReaction::Misbehaved(mb) => assert_eq!(mb.ban_score(), 100),
        other => panic!("expected misbehavior, got {:?}", other),
    }
    assert!(m.peers[0].pending_headers.is_empty());
}

#[test]
fn connecting_starts_the_header_exchange() {
    let chain = chain_of(4);
    let mut m = manager_with_peer(config(10, 1), ProtocolVersion::V2);
    assert_eq!(m.start_header_exchange(0, &chain), vec![103, 102, 101, 100]);
    assert_eq!(m.peers[0].state, block_sync::peer::PeerState::HeaderExchange);
    m.handle_header_list(0, &chain, &vec![], None, 1);
    assert_eq!(m.peers[0].state, block_sync::peer::PeerState::Steady);
}
