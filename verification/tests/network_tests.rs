use rusty_core::consensus::error::ConsensusError;
use rusty_core::consensus::pos::LiveTicketsPool;
use rusty_core::consensus::utxo_set::UtxoSet;
use rusty_core::network::sync::{ErrorRecovery, MemoryManager, PerformanceMonitor, SyncState as PersistedSyncState, SyncType};
use rusty_core::network::sync_manager::{
    create_simulated_block, create_simulated_header, calculate_block_hash, calculate_expected_difficulty, calculate_merkle_root, difficulty_target_to_threshold,
    estimate_transaction_size, format_outpoint, get_sync_progress, is_synced, validate_block_header,
    validate_block_size, validate_header_continuity, validate_merkle_root, validate_ticket_votes, validate_tx_input,
    validate_tx_output, SyncState, BASE_DIFFICULTY,
};
use rusty_core::assoc::AssocList;
use rusty_core::network::block_checks::{
    build_locator_hashes, detect_reorg, validate_block_header_enhanced, validate_block_size_comprehensive,
    validate_block_transactions_comprehensive, validate_header_chain_continuity, validate_ticket_votes_comprehensive,
    verify_block_comprehensive,
};
use rusty_core::network::peers::{select_best_sync_peer, PeerManager};
use rusty_core::types::{Block, BlockHeader, OutPoint, TicketVote, Transaction, TxInput, TxOutput, Utxo};

fn header(height: u64, previous: [u8; 32]) -> BlockHeader {
    BlockHeader {
        version: 1,
        previous_block_hash: previous,
        merkle_root: [0u8; 32],
        timestamp: 1_000,
        bits: 0,
        nonce: 0,
        height,
        difficulty_target: BASE_DIFFICULTY,
        state_root: [0u8; 32],
    }
}

fn coinbase(value: u64) -> Transaction {
    Transaction::Coinbase {
        version: 1,
        inputs: vec![TxInput::from_outpoint(OutPoint { txid: [0u8; 32], vout: u32::MAX }, vec![1], u32::MAX, vec![])],
        outputs: vec![TxOutput { value, script_pubkey: vec![0x51], memo: None }],
        lock_time: 0,
        witness: vec![],
    }
}

#[test]
fn sync_progress_and_state() {
    assert_eq!(get_sync_progress(&SyncState::NotSynced), 0);
    assert_eq!(get_sync_progress(&SyncState::HeaderSync), 25);
    assert_eq!(get_sync_progress(&SyncState::BlockSync), 75);
    assert_eq!(get_sync_progress(&SyncState::Synced), 100);
    assert_eq!(get_sync_progress(&SyncState::Error("x".to_string())), 0);
    assert!(is_synced(&SyncState::Synced));
    assert!(!is_synced(&SyncState::BlockSync));
}

#[test]
fn sync_state_default() {
    let s = PersistedSyncState::default();
    assert!(!s.is_syncing);
    assert_eq!(s.current_height, 0);
    assert_eq!(s.sync_type, SyncType::InitialBlockDownload);
}

#[test]
fn sync_transaction_size_estimate() {
    assert_eq!(estimate_transaction_size(0, 0), 10);
    assert_eq!(estimate_transaction_size(1, 2), 10 + 148 + 68);
    assert_eq!(estimate_transaction_size(3, 1), 10 + 444 + 34);
}

#[test]
fn sync_expected_difficulty_is_base() {
    assert_eq!(calculate_expected_difficulty(0), Ok(0x1d00ffff));
    assert_eq!(calculate_expected_difficulty(2016), Ok(0x1d00ffff));
    assert_eq!(calculate_expected_difficulty(12345), Ok(0x1d00ffff));
}

#[test]
fn sync_threshold_values() {
    // Exponent 3, mantissa 1: u64::MAX / 1.
    let t = difficulty_target_to_threshold(0x0300_0001);
    assert_eq!(&t[..8], &u64::MAX.to_le_bytes());
    assert!(t[8..].iter().all(|b| *b == 0));
    // Exponent 4, mantissa 2: value 512.
    let t = difficulty_target_to_threshold(0x0400_0002);
    assert_eq!(&t[..8], &(u64::MAX / 512).to_le_bytes());
    // A zero value gives u64::MAX.
    let t = difficulty_target_to_threshold(0x0000_0005);
    assert_eq!(&t[..8], &u64::MAX.to_le_bytes());
    // Only the low 23 bits of the mantissa count.
    let t = difficulty_target_to_threshold(0x0380_0003);
    assert_eq!(&t[..8], &(u64::MAX / 3).to_le_bytes());
}

#[test]
fn sync_block_hash_is_double_blake3() {
    let h = header(7, [3u8; 32]);
    let mut pre = Vec::new();
    pre.extend_from_slice(&h.version.to_le_bytes());
    pre.extend_from_slice(&h.height.to_le_bytes());
    pre.extend_from_slice(&h.previous_block_hash);
    pre.extend_from_slice(&h.merkle_root);
    pre.extend_from_slice(&h.state_root);
    pre.extend_from_slice(&h.timestamp.to_le_bytes());
    pre.extend_from_slice(&h.difficulty_target.to_le_bytes());
    pre.extend_from_slice(&h.nonce.to_le_bytes());
    let once = blake3::hash(&pre);
    let twice = blake3::hash(once.as_bytes());
    assert_eq!(calculate_block_hash(&h), *twice.as_bytes());
}

#[test]
fn sync_header_continuity() {
    let h = header(5, [9u8; 32]);
    assert!(validate_header_continuity(&header(0, [1u8; 32]), None).is_ok());
    assert!(validate_header_continuity(&h, Some([9u8; 32])).is_ok());
    assert_eq!(
        validate_header_continuity(&h, None),
        Err(ConsensusError::BlockValidation("Previous header not found at height 4".to_string()))
    );
    let e = validate_header_continuity(&h, Some([8u8; 32])).unwrap_err();
    assert_eq!(
        e,
        ConsensusError::BlockValidation(format!(
            "Header chain discontinuity: expected previous hash {:?}, got {:?}",
            [8u8; 32], [9u8; 32]
        ))
    );
}

#[test]
fn sync_block_header_rejections() {
    let mut h = header(11, [9u8; 32]);
    h.version = 2;
    assert_eq!(validate_block_header(&h, 10, None, 1_000), Err(ConsensusError::BlockValidation("Invalid block version: 2".to_string())));
    let h = header(12, [9u8; 32]);
    assert_eq!(
        validate_block_header(&h, 10, None, 1_000),
        Err(ConsensusError::BlockValidation("Invalid block height: expected 11, got 12".to_string()))
    );
    let h = header(0, [9u8; 32]);
    assert_eq!(
        validate_block_header(&h, 10, None, 1_000),
        Err(ConsensusError::BlockValidation("Genesis block must have zero previous block hash".to_string()))
    );
    let h = header(11, [0u8; 32]);
    assert_eq!(
        validate_block_header(&h, 10, None, 1_000),
        Err(ConsensusError::BlockValidation("Non-genesis block cannot have zero previous block hash".to_string()))
    );
    let h = header(11, [9u8; 32]);
    assert_eq!(
        validate_block_header(&h, 10, Some([1u8; 32]), 1_000),
        Err(ConsensusError::BlockValidation(format!("Previous block hash mismatch: expected {:?}, got {:?}", [1u8; 32], [9u8; 32])))
    );
    let mut h = header(11, [9u8; 32]);
    h.timestamp = 10_000;
    assert_eq!(
        validate_block_header(&h, 10, None, 1_000),
        Err(ConsensusError::BlockValidation("Block timestamp 10000 is too far in the future".to_string()))
    );
    let mut h = header(11, [9u8; 32]);
    h.difficulty_target = 5;
    assert_eq!(
        validate_block_header(&h, 10, None, 1_000),
        Err(ConsensusError::BlockValidation("Invalid difficulty target: expected 486604799, got 5".to_string()))
    );
}

#[test]
fn sync_output_checks() {
    let ok = TxOutput { value: 5, script_pubkey: vec![0x51], memo: None };
    assert!(validate_tx_output(&ok).is_ok());
    let op_return = TxOutput { value: 0, script_pubkey: vec![0x6a, 1], memo: None };
    assert!(validate_tx_output(&op_return).is_ok());
    let zero = TxOutput { value: 0, script_pubkey: vec![0x51], memo: None };
    assert_eq!(
        validate_tx_output(&zero),
        Err(ConsensusError::BlockValidation("Non-OP_RETURN output cannot have zero value".to_string()))
    );
    let big = TxOutput { value: 2_100_000_000_000_001, script_pubkey: vec![], memo: None };
    assert_eq!(
        validate_tx_output(&big),
        Err(ConsensusError::BlockValidation("Output value exceeds maximum: 2100000000000001 > 2100000000000000".to_string()))
    );
    let long = TxOutput { value: 1, script_pubkey: vec![0; 10_001], memo: None };
    assert_eq!(validate_tx_output(&long), Err(ConsensusError::BlockValidation("Script pubkey too long: 10001 > 10000".to_string())));
    let memo = TxOutput { value: 1, script_pubkey: vec![], memo: Some(vec![0; 81]) };
    assert_eq!(validate_tx_output(&memo), Err(ConsensusError::BlockValidation("Memo too large: 81 > 80".to_string())));
}

#[test]
fn sync_input_checks() {
    let mut utxos = UtxoSet::new();
    let op = OutPoint { txid: [4u8; 32], vout: 1 };
    utxos.add_utxo(op, Utxo { output: TxOutput { value: 50, script_pubkey: vec![0x51], memo: None }, is_coinbase: true, creation_height: 10 });
    let input = TxInput::from_outpoint(op, vec![], 0, vec![]);
    assert!(validate_tx_input(&input, &utxos, 110).is_ok());
    assert_eq!(
        validate_tx_input(&input, &utxos, 109),
        Err(ConsensusError::BlockValidation("Coinbase UTXO not mature: height 109 < 10 + 100".to_string()))
    );
    let zero = TxInput::from_outpoint(OutPoint { txid: [0u8; 32], vout: 0 }, vec![], 0, vec![]);
    assert_eq!(
        validate_tx_input(&zero, &utxos, 200),
        Err(ConsensusError::BlockValidation("Transaction input has zero previous output hash".to_string()))
    );
    let missing_op = OutPoint { txid: [5u8; 32], vout: 2 };
    let missing = TxInput::from_outpoint(missing_op, vec![], 0, vec![]);
    assert_eq!(
        validate_tx_input(&missing, &utxos, 200),
        Err(ConsensusError::BlockValidation(format!("Referenced UTXO does not exist: {:?}", missing_op)))
    );
    assert_eq!(format_outpoint(&missing_op), format!("{:?}", missing_op));
}

#[test]
fn sync_ticket_vote_count() {
    let pool = LiveTicketsPool::new();
    let h = header(1, [1u8; 32]);
    let vote = TicketVote { ticket_id: [1u8; 32], block_hash: [1u8; 32], vote: 0, signature: vec![0; 64] };
    assert_eq!(
        validate_ticket_votes(&vec![vote.clone()], &h, &pool),
        Err(ConsensusError::BlockValidation("Invalid ticket_votes count: expected 5, got 1".to_string()))
    );
    // Five votes on unknown tickets are all passed over.
    let votes = vec![vote.clone(), vote.clone(), vote.clone(), vote.clone(), vote];
    assert_eq!(validate_ticket_votes(&votes, &h, &pool), Err(ConsensusError::BlockValidation("Insufficient valid votes: 0 < 3".to_string())));
}

#[test]
fn sync_merkle_roots() {
    assert_eq!(
        calculate_merkle_root(&vec![]),
        Err(ConsensusError::BlockValidation("Cannot calculate merkle root for empty transaction list".to_string()))
    );
    let a = coinbase(1);
    let b = coinbase(2);
    let c = coinbase(3);
    assert_eq!(calculate_merkle_root(&vec![a.clone()]), Ok(a.txid()));
    let pair = |x: [u8; 32], y: [u8; 32]| {
        let mut buf = x.to_vec();
        buf.extend_from_slice(&y);
        *blake3::hash(&buf).as_bytes()
    };
    let ab = pair(a.txid(), b.txid());
    let cc = pair(c.txid(), c.txid());
    assert_eq!(calculate_merkle_root(&vec![a.clone(), b.clone(), c.clone()]), Ok(pair(ab, cc)));

    let mut block = Block { header: header(1, [1u8; 32]), transactions: vec![a.clone(), b.clone()], ticket_votes: vec![] };
    block.header.merkle_root = ab;
    assert!(validate_merkle_root(&block).is_ok());
    block.header.merkle_root = [7u8; 32];
    assert_eq!(
        validate_merkle_root(&block),
        Err(ConsensusError::BlockValidation(format!("Merkle root mismatch: expected {:?}, calculated {:?}", [7u8; 32], ab)))
    );
}

#[test]
fn sync_block_size_limits() {
    let block = Block { header: header(1, [1u8; 32]), transactions: vec![coinbase(1)], ticket_votes: vec![] };
    assert!(validate_block_size(&block, 0).is_ok());
    let big = Block {
        header: header(1, [1u8; 32]),
        transactions: vec![Transaction::Coinbase {
            version: 1,
            inputs: vec![],
            outputs: vec![TxOutput { value: 1, script_pubkey: vec![0; 1_500_000], memo: None }],
            lock_time: 0,
            witness: vec![],
        }],
        ticket_votes: vec![],
    };
    let r = validate_block_size(&big, 100_000);
    match r {
        Err(ConsensusError::BlockValidation(m)) => assert!(m.starts_with("Block size exceeds limit: ") && m.ends_with(" > 1000000")),
        other => panic!("unexpected {:?}", other),
    }
    assert!(validate_block_size(&big, 100_001).is_ok());
}

#[test]
fn recovery_delays_double_up_to_cap() {
    let mut r = ErrorRecovery::new();
    assert!(r.should_retry("download"));
    assert_eq!(r.get_retry_delay("download"), 100_000_000);
    assert_eq!(r.get_retry_delay("download"), 200_000_000);
    assert_eq!(r.get_retry_delay("download"), 400_000_000);
    assert!(r.should_retry("download"));
    assert_eq!(r.get_retry_delay("download"), 800_000_000);
    assert_eq!(r.get_retry_delay("download"), 1_600_000_000);
    assert!(!r.should_retry("download"));
    assert!(r.should_retry("other"));
    r.reset_operation("download");
    assert!(r.should_retry("download"));
    for _ in 0..12 {
        r.get_retry_delay("slow");
    }
    assert_eq!(r.get_retry_delay("slow"), 30_000_000_000);
    r.clear_all();
    assert_eq!(r.get_retry_delay("slow"), 100_000_000);
}

#[test]
fn memory_budget() {
    let mut m = MemoryManager::new(100);
    assert!(m.allocate(60));
    assert!(!m.allocate(41));
    assert_eq!(m.current_usage(), 60);
    assert!(!m.should_cleanup());
    assert!(m.allocate(21));
    assert!(m.should_cleanup());
    m.deallocate(500);
    assert_eq!(m.current_usage(), 0);
    assert_eq!(m.max_memory_usage(), 100);
}

#[test]
fn performance_window_and_means() {
    let mut p = PerformanceMonitor::new(3);
    assert_eq!(p.get_average_download_time(), None);
    for t in [10u128, 20, 30, 40] {
        p.record_download_time(t);
    }
    // Only the newest three count.
    assert_eq!(p.get_average_download_time(), Some(30));
    p.record_validation_time(5);
    p.record_validation_time(6);
    assert_eq!(p.get_average_validation_time(), Some(5));
    p.record_network_latency(1_000_000_001);
    assert_eq!(p.get_average_network_latency(), Some(1_000_000_001));
}

#[test]
fn sync_ticket_vote_bad_key_names_ticket_in_hex() {
    let mut pool = LiveTicketsPool::new();
    let id = [0xabu8; 32];
    pool.add_ticket(rusty_core::types::Ticket {
        id,
        pubkey: vec![1u8; 31],
        height: 0,
        value: 1,
        status: rusty_core::types::TicketStatus::Live,
    })
    .unwrap();
    let h = header(1, [1u8; 32]);
    let vote = TicketVote { ticket_id: id, block_hash: [1u8; 32], vote: 1, signature: vec![0u8; 64] };
    let votes = vec![vote.clone(), vote.clone(), vote.clone(), vote.clone(), vote];
    assert_eq!(
        validate_ticket_votes(&votes, &h, &pool),
        Err(ConsensusError::BlockValidation(format!("Invalid public key for ticket {}", "ab".repeat(32))))
    );
}

fn locator_store(heights: &[u64]) -> AssocList<u64, [u8; 32]> {
    let mut m = AssocList::new();
    for h in heights {
        m.insert(*h, [*h as u8; 32]);
    }
    m
}

#[test]
fn sync_enhanced_header_checks() {
    let mut h = header(5, [9u8; 32]);
    assert!(validate_block_header_enhanced(&h, 0, 0).is_ok());
    h.height = 10_001;
    assert_eq!(
        validate_block_header_enhanced(&h, 0, 0),
        Err(ConsensusError::BlockValidation("Header height 10001 is too far ahead of current height 0".to_string()))
    );
    h.height = 10_000;
    assert!(validate_block_header_enhanced(&h, 0, 0).is_ok());
    h.timestamp = 86_401;
    assert_eq!(
        validate_block_header_enhanced(&h, 0, 0),
        Err(ConsensusError::BlockValidation("Block timestamp 86401 is too far in the future".to_string()))
    );
    let zero = header(3, [0u8; 32]);
    assert_eq!(
        validate_block_header_enhanced(&zero, 0, 1_000),
        Err(ConsensusError::BlockValidation("Non-genesis block cannot have zero previous block hash".to_string()))
    );
    let mut v = header(3, [1u8; 32]);
    v.version = 7;
    assert_eq!(validate_block_header_enhanced(&v, 0, 1_000), Err(ConsensusError::BlockValidation("Invalid block version: 7".to_string())));
}

#[test]
fn sync_chain_continuity_tolerates_gaps() {
    let h = header(5, [9u8; 32]);
    assert!(validate_header_chain_continuity(&h, None).is_ok());
    assert!(validate_header_chain_continuity(&h, Some([9u8; 32])).is_ok());
    assert_eq!(
        validate_header_chain_continuity(&h, Some([2u8; 32])),
        Err(ConsensusError::BlockValidation(format!(
            "Header chain discontinuity: expected previous hash {:?}, got {:?}",
            [2u8; 32], [9u8; 32]
        )))
    );
    assert_eq!(
        validate_header_chain_continuity(&header(0, [1u8; 32]), None),
        Err(ConsensusError::BlockValidation("Genesis block must have zero previous block hash".to_string()))
    );
    assert!(validate_header_chain_continuity(&header(0, [0u8; 32]), Some([5u8; 32])).is_ok());
}

#[test]
fn sync_comprehensive_block_checks() {
    let cb = coinbase(1);
    let mut block = Block { header: header(1, [1u8; 32]), transactions: vec![cb.clone()], ticket_votes: vec![] };
    block.header.merkle_root = cb.txid();
    let good_vote = TicketVote { ticket_id: [3u8; 32], block_hash: [1u8; 32], vote: 1, signature: vec![] };
    let bad_vote = TicketVote { ticket_id: [0u8; 32], block_hash: [1u8; 32], vote: 1, signature: vec![] };
    block.ticket_votes = vec![good_vote.clone(), good_vote.clone(), good_vote.clone(), bad_vote.clone(), bad_vote.clone()];
    assert!(verify_block_comprehensive(&block, 0).is_ok());

    let mut two_bad = block.clone();
    two_bad.ticket_votes = vec![good_vote.clone(), good_vote.clone(), bad_vote.clone(), bad_vote.clone(), bad_vote.clone()];
    assert_eq!(
        verify_block_comprehensive(&two_bad, 0),
        Err(ConsensusError::BlockValidation("Insufficient valid votes: 2 < 3".to_string()))
    );
    let mut four = block.clone();
    four.ticket_votes.pop();
    assert_eq!(
        validate_ticket_votes_comprehensive(&four.ticket_votes, &four.header),
        Err(ConsensusError::BlockValidation("Invalid ticket_votes count: expected 5, got 4".to_string()))
    );

    let mut dup = block.clone();
    dup.transactions.push(cb.clone());
    assert_eq!(
        verify_block_comprehensive(&dup, 0),
        Err(ConsensusError::BlockValidation(format!("Duplicate transaction found: {:?}", cb.txid())))
    );
    let mut empty = block.clone();
    empty.transactions.clear();
    assert_eq!(
        validate_block_transactions_comprehensive(&empty.transactions),
        Err(ConsensusError::BlockValidation("Block must contain at least one transaction".to_string()))
    );
    let std_tx = Transaction::Standard { version: 1, inputs: vec![], outputs: vec![], lock_time: 0, fee: 0, witness: vec![] };
    assert_eq!(
        validate_block_transactions_comprehensive(&vec![std_tx]),
        Err(ConsensusError::BlockValidation("First transaction in block must be coinbase".to_string()))
    );
    let mut wrong_root = block.clone();
    wrong_root.header.merkle_root = [4u8; 32];
    assert_eq!(
        verify_block_comprehensive(&wrong_root, 0),
        Err(ConsensusError::BlockValidation(format!(
            "Merkle root mismatch: expected {:?}, calculated {:?}",
            [4u8; 32],
            cb.txid()
        )))
    );
    let mut late = block.clone();
    late.header.timestamp = 8_201;
    assert_eq!(
        verify_block_comprehensive(&late, 1_000),
        Err(ConsensusError::BlockValidation("Block timestamp 8201 is too far in the future".to_string()))
    );
}

#[test]
fn sync_comprehensive_block_size() {
    let small = Block { header: header(1, [1u8; 32]), transactions: vec![coinbase(1)], ticket_votes: vec![] };
    assert!(validate_block_size_comprehensive(&small).is_ok());
    let big = Block {
        header: header(1, [1u8; 32]),
        transactions: vec![Transaction::Coinbase {
            version: 1,
            inputs: vec![],
            outputs: vec![TxOutput { value: 1, script_pubkey: vec![0; 4_000_000], memo: None }],
            lock_time: 0,
            witness: vec![],
        }],
        ticket_votes: vec![],
    };
    match validate_block_size_comprehensive(&big) {
        Err(ConsensusError::BlockValidation(m)) => assert!(m.starts_with("Block size 400") && m.ends_with(" exceeds maximum 4000000")),
        other => panic!("unexpected {:?}", other),
    }
}

#[test]
fn sync_block_locator_steps_back_exponentially() {
    // Heights visited from 20: 20, 19, 17, 13, 5; then the step 16 no longer fits.
    let store = locator_store(&[20, 19, 17, 13, 5, 1]);
    assert_eq!(build_locator_hashes(20, &store), vec![[20u8; 32], [19u8; 32], [17u8; 32], [13u8; 32], [5u8; 32], [0u8; 32]]);
    // Missing heights are skipped.
    let store = locator_store(&[19, 5]);
    assert_eq!(build_locator_hashes(20, &store), vec![[19u8; 32], [5u8; 32], [0u8; 32]]);
    // Nothing known: only the genesis hash.
    assert_eq!(build_locator_hashes(0, &AssocList::new()), vec![[0u8; 32]]);
    // At most ten hashes are walked.
    let all: Vec<u64> = (1..=2000).collect();
    let mut store = AssocList::new();
    for h in &all {
        store.insert(*h, [1u8; 32]);
    }
    assert_eq!(build_locator_hashes(2000, &store).len(), 11);
}

#[test]
fn peers_record_and_shut_out() {
    let mut pm = PeerManager::new(8);
    pm.add_or_update_peer("a".to_string(), 100, 5_000_000);
    pm.add_or_update_peer("b".to_string(), 90, 1_000_000);
    assert_eq!(pm.get_peer_count(), 2);
    pm.record_success("a", 50);
    pm.record_success("a", 500);
    let c = pm.candidates();
    let a = c.iter().find(|m| m.peer_id == "a").unwrap();
    assert_eq!((a.success_count, a.failure_count), (2, 0));
    assert_eq!((a.reliability_num, a.reliability_den), (2, 2));
    assert_eq!((a.blocks_downloaded, a.headers_downloaded), (50, 500));
    for _ in 0..10 {
        pm.record_failure("b");
    }
    let b = pm.candidates().into_iter().find(|m| m.peer_id == "b").unwrap();
    assert_eq!((b.reliability_num, b.reliability_den), (1, 10));
    pm.record_failure("b");
    // Eleven failures and no success: shut out.
    assert!(pm.candidates().iter().all(|m| m.peer_id != "b"));
    pm.add_or_update_peer("b".to_string(), 500, 1);
    assert!(pm.candidates().iter().all(|m| m.peer_id != "b"));
    pm.remove_peer("b");
    pm.add_or_update_peer("b".to_string(), 500, 1);
    let b = pm.candidates().into_iter().find(|m| m.peer_id == "b").unwrap();
    assert_eq!((b.height, b.failure_count, b.reliability_num, b.reliability_den), (500, 0, 1, 1));
}

#[test]
fn peers_success_forgives_one_failure() {
    let mut pm = PeerManager::new(8);
    pm.add_or_update_peer("p".to_string(), 1, 1);
    pm.record_failure("p");
    pm.record_failure("p");
    pm.record_success("p", 0);
    let m = pm.candidates().remove(0);
    assert_eq!((m.success_count, m.failure_count, m.reliability_num, m.reliability_den), (1, 1, 1, 2));
    pm.record_success("nobody", 1);
    pm.record_failure("nobody");
    assert_eq!(pm.get_peer_count(), 1);
    pm.add_or_update_peer("p".to_string(), 9, 2);
    let m = pm.candidates().remove(0);
    assert_eq!((m.height, m.response_time_nanos, m.success_count), (9, 2, 1));
}

#[test]
fn recovery_counts_retries() {
    let mut r = ErrorRecovery::new();
    assert_eq!(r.retries("sync"), 0);
    r.get_retry_delay("sync");
    r.get_retry_delay("sync");
    assert_eq!(r.retries("sync"), 2);
    assert_eq!(r.retries("other"), 0);
}

#[test]
fn performance_sums_must_fit() {
    let mut p = PerformanceMonitor::new(4);
    assert!(p.averages_defined());
    p.record_download_time(18_446_744_073_709_551_615_999_999_999);
    assert!(p.averages_defined());
    p.record_download_time(1);
    assert!(!p.averages_defined());
}

fn heights(entries: &[(&str, u64)]) -> Vec<(String, u64)> {
    entries.iter().map(|(id, h)| (id.to_string(), *h)).collect()
}

#[test]
fn sync_peer_selection_refuses_an_empty_peer_list() {
    let r = select_best_sync_peer(&Vec::new(), &Vec::new());
    assert_eq!(r, Err(ConsensusError::NetworkError("No peers available for selection".to_string())));
}

#[test]
fn sync_peer_selection_prefers_fewest_blocks_in_flight_near_the_top() {
    let peers = heights(&[("a", 100), ("b", 95), ("c", 80), ("d", 99)]);
    let in_flight = heights(&[("a", 5), ("b", 2), ("c", 0), ("d", 2)]);
    // "c" is more than ten blocks behind; "b" and "d" tie and "b" comes first.
    assert_eq!(select_best_sync_peer(&peers, &in_flight), Ok("b".to_string()));
}

#[test]
fn sync_peer_selection_counts_unknown_peers_as_idle() {
    let peers = heights(&[("a", 50), ("b", 45)]);
    let in_flight = heights(&[("a", 1)]);
    assert_eq!(select_best_sync_peer(&peers, &in_flight), Ok("b".to_string()));
}

#[test]
fn simulated_blocks_chain_onto_the_stored_hashes() {
    let mut state = rusty_core::consensus::state::BlockchainState::new();
    let h0 = create_simulated_header(&state, 0, 1_234).unwrap();
    assert_eq!(h0.previous_block_hash, [0u8; 32]);
    assert_eq!(h0.version, 1);
    assert_eq!(h0.timestamp, 1_234);
    assert_eq!(h0.difficulty_target, 0x1d00ffff);
    state.put_block_hash(1, [4u8; 32]).unwrap();
    let b = create_simulated_block(&state, 2, 99).unwrap();
    assert_eq!(b.header.previous_block_hash, [4u8; 32]);
    assert_eq!(b.header.height, 2);
    assert!(b.ticket_votes.is_empty());
    match &b.transactions[..] {
        [Transaction::Coinbase { inputs, outputs, .. }] => {
            assert!(inputs.is_empty());
            assert_eq!(outputs.len(), 1);
            assert_eq!(outputs[0].value, 5_000_000_000);
        },
        _ => panic!("expected a single coinbase"),
    }
    // No hash is stored below height 4: the previous hash is zero.
    assert_eq!(create_simulated_header(&state, 4, 0).unwrap().previous_block_hash, [0u8; 32]);
}

#[test]
fn reorg_is_detected_from_block_validation_texts() {
    let bv = |m: &str| ConsensusError::BlockValidation(m.to_string());
    assert!(detect_reorg(&bv("Header chain discontinuity: expected previous hash")));
    assert!(detect_reorg(&bv("previous block hash mismatch at 5")));
    assert!(detect_reorg(&bv("Invalid block height: expected 3, got 4")));
    assert!(!detect_reorg(&bv("Block size exceeds limit")));
    assert!(!detect_reorg(&ConsensusError::InvalidBlock("height".to_string())));
}
