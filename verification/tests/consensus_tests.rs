use rusty_core::consensus::error::ConsensusError;
use rusty_core::consensus::governance_state::{ActiveProposals, ProposalOutcome};
use rusty_core::consensus::pos::{
    calculate_new_ticket_price, calculate_pos_reward, select_voters, ticket_lottery_score, LiveTicketsPool,
    INITIAL_TICKET_PRICE, MAX_TICKET_PRICE, MIN_TICKET_PRICE,
};
use rusty_core::consensus::pow::{calculate_new_target, calculate_next_difficulty, calculate_target, max_target};
use rusty_core::consensus::{init_consensus, init_consensus_with_config, validate_consensus_config, ConsensusConfig};
use rusty_core::types::{Block, BlockHeader, ProposalTx, ProposalType, Ticket, TicketStatus, Transaction, TxOutput, VoteChoice, VoteTx, VoterType};
use rusty_core::uint::U256;

fn u256(x: u64) -> U256 {
    U256([x, 0, 0, 0])
}

fn header(height: u64) -> BlockHeader {
    BlockHeader {
        version: 1,
        previous_block_hash: [0u8; 32],
        merkle_root: [0u8; 32],
        timestamp: 0,
        bits: 0,
        nonce: 0,
        height,
        difficulty_target: 0,
        state_root: [0u8; 32],
    }
}

fn ticket(seed: u8) -> Ticket {
    Ticket { id: [seed; 32], pubkey: vec![seed; 32], height: 1, value: 100, status: TicketStatus::Live }
}

fn purchase(seed: u8, value: Option<u64>, address_len: usize) -> Transaction {
    Transaction::TicketPurchase {
        version: 1,
        inputs: vec![],
        outputs: match value {
            Some(v) => vec![TxOutput { value: v, script_pubkey: vec![], memo: None }],
            None => vec![],
        },
        ticket_id: purchased_id(seed),
        locked_amount: value.unwrap_or(0),
        lock_time: 0,
        fee: 0,
        ticket_address: vec![seed; address_len],
        witness: vec![],
    }
}

/// The id of the ticket a purchase with address `[seed; 32]` buys.
fn purchased_id(seed: u8) -> [u8; 32] {
    *blake3::hash(&[seed; 32]).as_bytes()
}

fn proposal(id: u8, start: u64, end: u64) -> ProposalTx {
    ProposalTx {
        proposal_id: [id; 32],
        proposer_address: [1u8; 32],
        start_block_height: start,
        end_block_height: end,
        description_hash: [2u8; 32],
        proposer_signature: vec![],
        inputs: vec![],
        outputs: vec![],
        lock_time: 0,
        fee: 0,
        title: "Proposal".to_string(),
        proposal_type: ProposalType::ProtocolUpgrade,
        target_parameter: None,
        new_value: None,
    }
}

fn vote(id: u8, voter: u8, choice: VoteChoice) -> VoteTx {
    VoteTx {
        proposal_id: [id; 32],
        voter_id: [voter; 32],
        vote_choice: choice,
        voter_signature: vec![],
        inputs: vec![],
        outputs: vec![],
        lock_time: 0,
        fee: 0,
        voter_type: VoterType::PosTicket,
    }
}

#[test]
fn consensus_default_config_passes() {
    let config = init_consensus().unwrap();
    assert_eq!(config, ConsensusConfig::default());
    assert_eq!(config.target_block_time, 60);
    assert_eq!(config.difficulty_adjustment_period, 144);
    assert_eq!(config.coinbase_maturity, 100);
}

#[test]
fn consensus_config_errors_in_order() {
    let mut c = ConsensusConfig::default();
    c.target_block_time = 0;
    c.min_masternode_count = 1;
    assert_eq!(validate_consensus_config(&c), Err("Invalid target block time: must be > 0".to_string()));
    c.target_block_time = 60;
    c.difficulty_adjustment_period = 0;
    assert_eq!(validate_consensus_config(&c), Err("Invalid difficulty adjustment period: must be > 0".to_string()));
    c.difficulty_adjustment_period = 144;
    assert_eq!(validate_consensus_config(&c), Err("Insufficient minimum masternode count for security".to_string()));
    c.min_masternode_count = 3;
    assert_eq!(validate_consensus_config(&c), Ok(()));
}

#[test]
fn consensus_init_with_config() {
    let mut c = ConsensusConfig::default();
    c.min_masternode_count = 0;
    assert_eq!(init_consensus_with_config(c), Ok(c));
    c.target_block_time = 0;
    assert_eq!(init_consensus_with_config(c), Err("Invalid target block time".to_string()));
}

#[test]
fn pow_compact_targets() {
    assert_eq!(calculate_target(0x0312_3456), u256(0x12_3456));
    assert_eq!(calculate_target(0x0212_3456), u256(0x1234));
    assert_eq!(calculate_target(0x0112_3456), u256(0x12));
    assert_eq!(calculate_target(0x0012_3456), u256(0));
    assert_eq!(calculate_target(0x0412_3456), u256(0x1234_5600));
    assert_eq!(calculate_target(0x1d00_ffff), U256([0, 0, 0, 0xffff_0000]));
}

#[test]
fn pow_retarget_scales_and_clamps() {
    let expected: u64 = 150 * 2016;
    // On time: unchanged.
    assert_eq!(calculate_next_difficulty(expected, 0, u256(1000)), u256(1000));
    // Twice as long: twice as easy.
    assert_eq!(calculate_next_difficulty(2 * expected, 0, u256(1000)), u256(2000));
    // Far too long: at most four times easier.
    assert_eq!(calculate_next_difficulty(10 * expected, 0, u256(1000)), u256(4000));
    // Far too short: four times harder.
    assert_eq!(calculate_next_difficulty(expected / 10, 0, u256(1000)), u256(250));
    // Half the time: twice as hard.
    assert_eq!(calculate_next_difficulty(expected / 2, 0, u256(1000)), u256(500));
    // Never easier than the easiest target.
    assert_eq!(calculate_next_difficulty(4 * expected, 0, u256(0xFFFF_0000)), max_target());
}

#[test]
fn pow_new_target_clamps_timespan() {
    let max = u256(1_000_000);
    assert_eq!(calculate_new_target(u256(1000), 600, 600, 10, 2400, max), u256(1000));
    assert_eq!(calculate_new_target(u256(1000), 300, 600, 10, 2400, max), u256(500));
    assert_eq!(calculate_new_target(u256(1000), 1, 600, 10, 2400, max), u256(250));
    assert_eq!(calculate_new_target(u256(1000), 100_000, 600, 10, 2400, max), u256(4000));
    assert_eq!(calculate_new_target(u256(900_000), 1200, 600, 10, 2400, max), max);
}

#[test]
fn pos_ticket_price_values() {
    assert_eq!(calculate_new_ticket_price(0, 5, 1), INITIAL_TICKET_PRICE);
    assert_eq!(calculate_new_ticket_price(2015, 123_456_789, 50_000), 123_456_789);
    assert_eq!(calculate_new_ticket_price(2016, 100_000_000, 20_000), 100_000_000);
    assert_eq!(calculate_new_ticket_price(2016, 100_000_000, 40_000), 105_000_000);
    assert_eq!(calculate_new_ticket_price(4032, 100_000_000, 0), 95_000_000);
    assert_eq!(calculate_new_ticket_price(2016, 999_000_000, 40_000), MAX_TICKET_PRICE);
    assert_eq!(calculate_new_ticket_price(2016, 10_000_000, 0), MIN_TICKET_PRICE);
    // Rounds to the nearest unit: 30 * 1.05 = 31.5 rounds to 32, then the floor applies.
    assert_eq!(calculate_new_ticket_price(2016, 30, 40_000), MIN_TICKET_PRICE);
}

#[test]
fn pos_ticket_price_grows_with_tickets() {
    let mut last = 0u64;
    for n in [0usize, 10_000, 20_000, 30_000, 40_000, 1_000_000] {
        let p = calculate_new_ticket_price(2016, 200_000_000, n);
        assert!(p >= last);
        assert!(p >= MIN_TICKET_PRICE && p <= MAX_TICKET_PRICE);
        last = p;
    }
}

#[test]
fn pos_reward_is_one_coin() {
    assert_eq!(calculate_pos_reward(0), 100_000_000);
    assert_eq!(calculate_pos_reward(123_456), 100_000_000);
}

#[test]
fn pos_pool_add_remove_get() {
    let mut pool = LiveTicketsPool::new();
    assert_eq!(pool.get_live_ticket_count(), 0);
    pool.add_ticket(ticket(1)).unwrap();
    pool.add_ticket(ticket(2)).unwrap();
    assert_eq!(pool.get_live_ticket_count(), 2);
    assert_eq!(pool.count_live_tickets(), 2);
    // Adding under a known id replaces the ticket.
    let mut again = ticket(1);
    again.value = 7;
    pool.add_ticket(again).unwrap();
    assert_eq!(pool.get_live_ticket_count(), 2);
    assert_eq!(pool.get_ticket(&[1u8; 32]).unwrap().value, 7);
    assert_eq!(pool.get_ticket(&[2u8; 32]).unwrap().pubkey, vec![2u8; 32]);
    assert_eq!(pool.remove_ticket(&[1u8; 32]).unwrap().id, [1u8; 32]);
    assert!(pool.get_ticket(&[1u8; 32]).is_none());
    assert!(matches!(pool.remove_ticket(&[1u8; 32]), Err(ConsensusError::InvalidTicket(_))));
    assert_eq!(pool.get_all_tickets().len(), 1);
}

#[test]
fn pos_pool_sorted_ids() {
    let mut pool = LiveTicketsPool::new();
    for seed in [7u8, 3, 9, 1] {
        pool.add_ticket(ticket(seed)).unwrap();
    }
    assert_eq!(pool.get_ticket_ids_sorted(), vec![[1u8; 32], [3u8; 32], [7u8; 32], [9u8; 32]]);
}

#[test]
fn pos_pool_block_update_and_revert() {
    let mut pool = LiveTicketsPool::new();
    pool.add_ticket(ticket(1)).unwrap();
    pool.add_ticket(ticket(2)).unwrap();
    let block = Block { header: header(42), transactions: vec![purchase(5, Some(1000), 32)], ticket_votes: vec![] };
    pool.update_for_new_block(&block, &vec![[1u8; 32]]).unwrap();
    assert!(pool.get_ticket(&[1u8; 32]).is_none());
    let bought = pool.get_ticket(&purchased_id(5)).unwrap();
    assert_eq!(bought.pubkey, vec![5u8; 32]);
    assert_eq!(bought.height, 42);
    assert_eq!(bought.value, 1000);
    assert_eq!(bought.status, TicketStatus::Live);
    assert_eq!(pool.get_live_ticket_count(), 2);

    pool.update_for_revert_block(&block, &vec![[1u8; 32]]);
    assert!(pool.get_ticket(&purchased_id(5)).is_none());
    assert_eq!(pool.get_live_ticket_count(), 1);
}

#[test]
fn pos_pool_rejects_malformed_purchases() {
    let mut pool = LiveTicketsPool::new();
    let block = Block { header: header(3), transactions: vec![purchase(6, Some(10), 32), purchase(7, None, 32)], ticket_votes: vec![] };
    let r = pool.update_for_new_block(&block, &vec![]);
    assert_eq!(r, Err(ConsensusError::InvalidTicket("Ticket purchase transaction has no output for ticket.".to_string())));
    // The purchase before the malformed one was kept.
    assert!(pool.get_ticket(&purchased_id(6)).is_some());
    assert_eq!(pool.get_live_ticket_count(), 1);

    let mut pool = LiveTicketsPool::new();
    let block = Block { header: header(3), transactions: vec![purchase(8, Some(10), 31)], ticket_votes: vec![] };
    let r = pool.update_for_new_block(&block, &vec![]);
    assert_eq!(r, Err(ConsensusError::InvalidTicket("Invalid public key length in ticket address.".to_string())));
    assert_eq!(pool.get_live_ticket_count(), 0);
}

#[test]
fn pos_select_voters_ranks_by_score() {
    let mut pool = LiveTicketsPool::new();
    for seed in 1u8..=8 {
        pool.add_ticket(ticket(seed)).unwrap();
    }
    let prev = [9u8; 32];
    let voters = select_voters(&prev, &pool);
    assert_eq!(voters.len(), 5);
    for w in voters.windows(2) {
        let a = (ticket_lottery_score(&prev, &w[0]), w[0]);
        let b = (ticket_lottery_score(&prev, &w[1]), w[1]);
        assert!(a > b);
    }
    let lowest = ticket_lottery_score(&prev, &voters[4]);
    for seed in 1u8..=8 {
        let id = [seed; 32];
        if !voters.contains(&id) {
            assert!(ticket_lottery_score(&prev, &id) <= lowest);
        }
    }
}

#[test]
fn pos_lottery_score_reads_blake3_prefix() {
    let prev = [0u8; 32];
    let id = [0u8; 32];
    let mut input = prev.to_vec();
    input.extend_from_slice(&id);
    let digest = blake3::hash(&input);
    let mut first = [0u8; 8];
    first.copy_from_slice(&digest.as_bytes()[..8]);
    assert_eq!(ticket_lottery_score(&prev, &id), u64::from_le_bytes(first));
}

#[test]
fn pos_select_voters_small_pool() {
    let mut pool = LiveTicketsPool::new();
    pool.add_ticket(ticket(4)).unwrap();
    pool.add_ticket(ticket(5)).unwrap();
    let voters = select_voters(&[0u8; 32], &pool);
    assert_eq!(voters.len(), 2);
    assert!(voters.contains(&[4u8; 32]) && voters.contains(&[5u8; 32]));
}

#[test]
fn governance_state_add_and_record() {
    let mut ap = ActiveProposals::new();
    ap.add_proposal(proposal(1, 10, 20)).unwrap();
    assert_eq!(ap.add_proposal(proposal(1, 10, 20)), Err(ConsensusError::ProposalAlreadyExists([1u8; 32])));
    assert_eq!(ap.record_vote(vote(2, 1, VoteChoice::Yes)), Err(ConsensusError::ProposalNotFound([2u8; 32])));
    ap.record_vote(vote(1, 7, VoteChoice::Yes)).unwrap();
    ap.record_vote(vote(1, 7, VoteChoice::No)).unwrap();
    let votes = ap.get_votes_for_proposal(&[1u8; 32]).unwrap();
    assert_eq!(votes.len(), 1);
    assert_eq!(votes.get(&[7u8; 32]).unwrap().vote_choice, VoteChoice::No);
    assert_eq!(ap.get_proposal(&[1u8; 32]).unwrap().end_block_height, 20);
}

#[test]
fn governance_state_remove() {
    let mut ap = ActiveProposals::new();
    ap.add_proposal(proposal(1, 10, 20)).unwrap();
    ap.record_vote(vote(1, 7, VoteChoice::Yes)).unwrap();
    assert_eq!(ap.remove_vote(&[1u8; 32], &[8u8; 32]), Err(ConsensusError::VoteNotFound([1u8; 32], [8u8; 32])));
    ap.remove_vote(&[1u8; 32], &[7u8; 32]).unwrap();
    assert_eq!(ap.get_votes_for_proposal(&[1u8; 32]).unwrap().len(), 0);
    ap.remove_proposal(&[1u8; 32]).unwrap();
    assert!(ap.get_proposal(&[1u8; 32]).is_none());
    assert_eq!(ap.remove_proposal(&[1u8; 32]), Err(ConsensusError::ProposalNotFound([1u8; 32])));
}

#[test]
fn governance_state_evaluation() {
    let mut ap = ActiveProposals::new();
    ap.add_proposal(proposal(1, 10, 20)).unwrap();
    ap.record_vote(vote(1, 1, VoteChoice::Yes)).unwrap();
    ap.record_vote(vote(1, 2, VoteChoice::Yes)).unwrap();
    ap.record_vote(vote(1, 3, VoteChoice::No)).unwrap();
    ap.record_vote(vote(1, 4, VoteChoice::Yes)).unwrap();
    let id = [1u8; 32];
    let types = vec![true, true, false, false];
    // Outside the window.
    assert_eq!(ap.evaluate_proposal_with_voter_types(&id, 9, &types, 4, 4, 5000, 5000, 5000, 5000), Ok(ProposalOutcome::InProgress));
    assert_eq!(ap.evaluate_proposal_with_voter_types(&id, 21, &types, 4, 4, 5000, 5000, 5000, 5000), Ok(ProposalOutcome::InProgress));
    // 2 of 4 tickets and 2 of 4 masternodes cast: quorum of 50% met; masternode yes share 50%.
    assert_eq!(ap.evaluate_proposal_with_voter_types(&id, 15, &types, 4, 4, 5000, 5000, 5000, 5000), Ok(ProposalOutcome::Passed));
    assert_eq!(
        ap.evaluate_proposal_with_voter_types(&id, 15, &types, 4, 4, 5000, 5000, 5000, 6667),
        Ok(ProposalOutcome::Rejected { reason: "Supermajority not met".to_string() })
    );
    assert_eq!(
        ap.evaluate_proposal_with_voter_types(&id, 15, &types, 5, 4, 5000, 5000, 5000, 5000),
        Ok(ProposalOutcome::Rejected { reason: "Quorum not met".to_string() })
    );
    assert_eq!(
        ap.evaluate_proposal_with_voter_types(&[9u8; 32], 15, &vec![], 4, 4, 5000, 5000, 5000, 5000),
        Err(ConsensusError::Internal("Proposal not found for evaluation.".to_string()))
    );
}

#[test]
fn governance_state_random_evaluation_in_progress() {
    let mut ap = ActiveProposals::new();
    ap.add_proposal(proposal(1, 10, 20)).unwrap();
    ap.record_vote(vote(1, 1, VoteChoice::Yes)).unwrap();
    assert_eq!(ap.evaluate_proposal_at_height(&[1u8; 32], 5, 1, 1, 5000, 5000, 5000, 5000), Ok(ProposalOutcome::InProgress));
    let r = ap.evaluate_proposal_at_height(&[1u8; 32], 15, 1, 1, 5000, 5000, 5000, 5000).unwrap();
    // One voter on one side only: the other side casts nothing against one eligible voter.
    assert_eq!(r, ProposalOutcome::Rejected { reason: "Quorum not met".to_string() });
}
