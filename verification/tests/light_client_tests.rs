use rusty_core::consensus::error::ConsensusError;
use rusty_core::light_client::{LightClient, LightClientConfig, LightClientStats, PeerSelectionStrategy};
use rusty_core::types::BlockHeader;

fn header(height: u64, previous: [u8; 32], root: u8) -> BlockHeader {
    BlockHeader {
        version: 1,
        previous_block_hash: previous,
        merkle_root: [0u8; 32],
        timestamp: height,
        bits: 0,
        nonce: 0,
        height,
        difficulty_target: 0,
        state_root: [root; 32],
    }
}

#[test]
fn light_config_defaults() {
    let c = LightClientConfig::default();
    assert_eq!(c.trusted_nodes, vec!["127.0.0.1:8333".to_string()]);
    assert_eq!(c.max_concurrent_requests, 10);
    assert_eq!(c.request_timeout_secs, 30);
    assert_eq!(c.header_timeout_secs, 15);
    assert!(c.enable_caching);
    assert_eq!(c.cache_size_limit, 1000);
    assert_eq!(c.max_retries, 3);
    assert_eq!(c.retry_delay_ms, 1000);
}

#[test]
fn light_headers_extend_best_block() {
    let mut lc = LightClient::new(LightClientConfig::default());
    assert_eq!(lc.get_best_block_height(), 0);
    let g = header(0, [0u8; 32], 1);
    lc.update_block_header(g).unwrap();
    // A genesis header does not raise the best height above zero.
    assert_eq!(lc.get_best_block_hash(), [0u8; 32]);
    let h1 = header(1, [5u8; 32], 2);
    lc.update_block_header(h1).unwrap();
    assert_eq!(lc.get_best_block_height(), 1);
    assert_eq!(lc.get_best_block_hash(), h1.hash());
    let stray = header(2, [6u8; 32], 3);
    assert_eq!(
        lc.update_block_header(stray),
        Err(ConsensusError::TrieError("Block header doesn't connect to chain".to_string()))
    );
    let h2 = header(2, h1.hash(), 4);
    lc.update_block_header(h2).unwrap();
    assert_eq!(lc.get_best_block_height(), 2);
    assert_eq!(lc.get_state_root_at_height(2), Ok([4u8; 32]));
    assert_eq!(lc.get_state_root_at_height(9), Err(ConsensusError::StateRootNotFound(9)));
    assert_eq!(
        lc.get_stats(),
        LightClientStats { best_block_height: 2, cached_headers: 3, cached_state_roots: 3, cached_proofs: 0, trusted_nodes: 1 }
    );
}

#[test]
fn light_proof_cache() {
    let mut lc = LightClient::new(LightClientConfig::default());
    lc.update_block_header(header(0, [0u8; 32], 7)).unwrap();
    assert!(lc.check_proof_state_root(0, &[7u8; 32]).is_ok());
    assert_eq!(lc.check_proof_state_root(0, &[8u8; 32]), Err(ConsensusError::TrieError("State root mismatch".to_string())));
    assert_eq!(lc.check_proof_state_root(1, &[7u8; 32]), Err(ConsensusError::StateRootNotFound(1)));
    lc.cache_proof([1u8; 32], 100);
    lc.cache_proof([2u8; 32], 50);
    lc.cache_proof([1u8; 32], 30);
    assert_eq!(lc.get_stats().cached_proofs, 2);
    assert_eq!(lc.estimate_cache_size(), Some(80));
    lc.clear_cache();
    assert_eq!(lc.get_stats().cached_proofs, 0);
    assert_eq!(lc.estimate_cache_size(), Some(0));

    let mut config = LightClientConfig::default();
    config.enable_caching = false;
    let mut off = LightClient::new(config);
    off.cache_proof([1u8; 32], 100);
    assert_eq!(off.get_stats().cached_proofs, 0);
    off.set_peer_selection_strategy(PeerSelectionStrategy::Random);
}

#[test]
fn light_accepts_header_batches_until_a_break() {
    let mut lc = LightClient::new(LightClientConfig::default());
    assert_eq!(lc.accept_headers([0u8; 32], vec![]), Err(ConsensusError::NetworkError("No headers received".to_string())));
    let h1 = header(1, [0u8; 32], 1);
    let h2 = header(2, h1.hash(), 2);
    let stray = header(3, [9u8; 32], 3);
    let h3 = header(3, h2.hash(), 3);
    let accepted = lc.accept_headers([0u8; 32], vec![h1, h2, stray, h3]).unwrap();
    assert_eq!(accepted, vec![h1, h2]);
    assert_eq!(lc.get_best_block_height(), 2);
    let accepted = lc.accept_headers(h2.hash(), vec![h3]).unwrap();
    assert_eq!(accepted, vec![h3]);
    assert_eq!(lc.get_best_block_hash(), h3.hash());
}

#[test]
fn light_header_batch_stops_where_a_header_does_not_connect() {
    let mut lc = LightClient::new(LightClientConfig::default());
    let h1 = header(1, [0u8; 32], 1);
    lc.update_block_header(h1).unwrap();
    let h2 = header(2, h1.hash(), 2);
    // Names h2 but is no higher, so it is stored without becoming the best block.
    let side = header(2, h2.hash(), 5);
    // Names the side header, which is not the best block: refused.
    let next = header(3, side.hash(), 6);
    assert_eq!(
        lc.accept_headers(h1.hash(), vec![h2, side, next]),
        Err(ConsensusError::TrieError("Block header doesn't connect to chain".to_string()))
    );
    assert_eq!(lc.get_best_block_hash(), h2.hash());
    assert_eq!(lc.get_best_block_height(), 2);
    assert_eq!(lc.get_state_root_at_height(2), Ok([5u8; 32]));
    assert_eq!(lc.get_state_root_at_height(3), Err(ConsensusError::StateRootNotFound(3)));
    assert_eq!(lc.get_stats().cached_headers, 3);
}
