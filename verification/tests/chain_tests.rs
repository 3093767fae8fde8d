use ed25519_dalek::Signer;
use rusty_core::assoc::AssocList;
use rusty_core::consensus::chain::{get_block_subsidy, parameter_type, Blockchain, ConsensusParams, ParamType, ParameterChange};
use rusty_core::consensus::error::ConsensusError;
use rusty_core::consensus::governance_state::ActiveProposals;
use rusty_core::consensus::pos::LiveTicketsPool;
use rusty_core::consensus::pose::{PoSeChallenge, PoSeResponse};
use rusty_core::consensus::state::BlockchainState;
use rusty_core::consensus::utxo_set::UtxoSet;
use rusty_core::governance::{MasternodeList, MasternodeStatus};
use rusty_core::types::{Block, BlockHeader, MasternodeIdentity, OutPoint, ProposalTx, ProposalType, Ticket, TicketStatus, TicketVote, Transaction, TxInput, TxOutput, Utxo, VoteChoice, VoteTx, VoterType};

fn params() -> ConsensusParams {
    ConsensusParams {
        min_stake: 1,
        max_tickets_per_stake: 2,
        ticket_price: 3,
        ticket_maturity: 256,
        ticket_expiry: 40_960,
        min_block_time: 150,
        reward_amount: 5,
        target_live_tickets: 20_000,
        difficulty_adjustment_window: 2016,
        halving_interval: 210_000,
        initial_block_reward: 50,
        ticket_price_adjustment_period: 2016,
        max_ticket_price: 1_000,
        min_ticket_price: 10,
        proposal_stake_amount: 100,
        voting_period_blocks: 10,
        activation_delay_blocks: 10,
        grace_period_blocks: 10,
        slash_forgiveness_period: 10,
        pose_challenge_period_blocks: 10,
        num_pose_challengers: 3,
        num_pose_targets_per_period: 3,
        pose_response_timeout_seconds: 60,
        max_pose_failures: 3,
        reset_failures_period: 10,
        min_witness_signatures: 2,
        pos_finality_depth: 6,
        max_block_size: 1_000_000,
        max_tx_size: 100_000,
        block_reward: 50,
        coinbase_maturity: 100,
        dust_limit: 546,
        min_relay_tx_fee: 1,
        masternode_collateral_amount: 1_000,
        max_inactivity_blocks: 100,
        tickets_per_round: 5,
    }
}

fn chain() -> Blockchain {
    Blockchain {
        tip: [0u8; 32],
        live_tickets: LiveTicketsPool::new(),
        utxo_set: UtxoSet::new(),
        masternode_list: MasternodeList::new(),
        params: params(),
        active_proposals: ActiveProposals::new(),
        state: BlockchainState::new(),
    }
}

fn standard(inputs: Vec<TxInput>, outputs: Vec<TxOutput>, fee: u64, lock_time: u32) -> Transaction {
    Transaction::Standard { version: 1, inputs, outputs, lock_time, fee, witness: vec![] }
}

fn out(value: u64) -> TxOutput {
    TxOutput { value, script_pubkey: vec![0x51], memo: None }
}

fn header(timestamp: u64, state_root: [u8; 32]) -> BlockHeader {
    BlockHeader {
        version: 1,
        previous_block_hash: [1u8; 32],
        merkle_root: [0u8; 32],
        timestamp,
        bits: 0,
        nonce: 0,
        height: 1,
        difficulty_target: 0,
        state_root,
    }
}

#[test]
fn chain_coinbase_shape() {
    let c = chain();
    let good = Transaction::Coinbase {
        version: 1,
        inputs: vec![TxInput::from_outpoint(OutPoint { txid: [0u8; 32], vout: 0 }, vec![], 0, vec![])],
        outputs: vec![out(50)],
        lock_time: 0,
        witness: vec![],
    };
    assert_eq!(c.validate_transaction(&good, 1, 0), Ok(()));
    let no_output = Transaction::Coinbase {
        version: 1,
        inputs: vec![TxInput::from_outpoint(OutPoint { txid: [0u8; 32], vout: 0 }, vec![], 0, vec![])],
        outputs: vec![],
        lock_time: 0,
        witness: vec![],
    };
    assert_eq!(
        c.validate_transaction(&no_output, 1, 0),
        Err(ConsensusError::InvalidCoinbase("Coinbase transaction must have at least one output".to_string()))
    );
    let bad_input = Transaction::Coinbase {
        version: 1,
        inputs: vec![TxInput::from_outpoint(OutPoint { txid: [3u8; 32], vout: 0 }, vec![], 0, vec![])],
        outputs: vec![out(50)],
        lock_time: 0,
        witness: vec![],
    };
    assert_eq!(
        c.validate_transaction(&bad_input, 1, 0),
        Err(ConsensusError::InvalidCoinbase("Coinbase transaction must have a single null input".to_string()))
    );
}

#[test]
fn chain_missing_and_immature_inputs() {
    let mut c = chain();
    let missing = OutPoint { txid: [7u8; 32], vout: 0 };
    let tx = standard(vec![TxInput::from_outpoint(missing, vec![], 0, vec![])], vec![], 0, 0);
    assert_eq!(c.validate_transaction(&tx, 10, 0), Err(ConsensusError::MissingPreviousOutput(missing)));

    let op = OutPoint { txid: [8u8; 32], vout: 1 };
    c.utxo_set.add_utxo(op, Utxo { output: out(10), is_coinbase: true, creation_height: 5 });
    let tx = standard(vec![TxInput::from_outpoint(op, vec![], 0, vec![])], vec![], 0, 0);
    assert_eq!(
        c.validate_transaction(&tx, 104, 0),
        Err(ConsensusError::ImmatureTicket(format!("Coinbase UTXO {:?} is not yet mature", op)))
    );
}

#[test]
fn chain_fee_and_locktime() {
    let c = chain();
    let tx = standard(vec![], vec![out(10)], 2, 0);
    assert_eq!(c.validate_transaction(&tx, 10, 0), Err(ConsensusError::InsufficientFee(2, 0)));
    let tx = standard(vec![], vec![], 0, 11);
    assert_eq!(
        c.validate_transaction(&tx, 10, 0),
        Err(ConsensusError::InvalidLockTime(
            "Transaction locktime (11) is in the future compared to current block height (10)".to_string()
        ))
    );
    let tx = standard(vec![], vec![], 0, 600_000_000);
    assert_eq!(
        c.validate_transaction(&tx, 10, 599_999_999),
        Err(ConsensusError::InvalidLockTime(
            "Transaction locktime (600000000) is in the future compared to current timestamp (599999999)".to_string()
        ))
    );
    assert_eq!(c.validate_transaction(&tx, 10, 600_000_000), Ok(()));
    assert_eq!(c.validate_transaction(&standard(vec![], vec![], 0, 10), 10, 0), Ok(()));
}

#[test]
fn chain_ticket_purchase_and_redemption() {
    let mut c = chain();
    let funding = OutPoint { txid: [9u8; 32], vout: 0 };
    c.utxo_set.add_utxo(funding, Utxo { output: out(100), is_coinbase: false, creation_height: 1 });
    let purchase = |locked: u64, address: Vec<u8>, id: [u8; 32]| Transaction::TicketPurchase {
        version: 1,
        inputs: vec![TxInput::from_outpoint(funding, vec![], 0, vec![])],
        outputs: vec![TxOutput { value: 100, script_pubkey: vec![1u8; 32], memo: None }],
        ticket_id: id,
        locked_amount: locked,
        lock_time: 0,
        fee: 0,
        ticket_address: address,
        witness: vec![],
    };
    assert_eq!(c.validate_transaction(&purchase(100, vec![1u8; 32], [5u8; 32]), 10, 0), Ok(()));
    assert_eq!(
        c.validate_transaction(&purchase(99, vec![1u8; 32], [5u8; 32]), 10, 0),
        Err(ConsensusError::InvalidTicket("Ticket purchase output value does not match locked amount".to_string()))
    );
    assert_eq!(
        c.validate_transaction(&purchase(100, vec![2u8; 32], [5u8; 32]), 10, 0),
        Err(ConsensusError::InvalidTicket("Ticket purchase output script_pubkey does not match ticket address".to_string()))
    );
    c.live_tickets
        .add_ticket(Ticket { id: [5u8; 32], pubkey: vec![1u8; 32], height: 100, value: 100, status: TicketStatus::Live })
        .unwrap();
    assert_eq!(
        c.validate_transaction(&purchase(100, vec![1u8; 32], [5u8; 32]), 10, 0),
        Err(ConsensusError::DuplicateTicketVote(format!("Ticket with ID {:?} already exists in live pool", [5u8; 32])))
    );
    let redeem = |id: [u8; 32]| Transaction::TicketRedemption {
        version: 1,
        inputs: vec![],
        outputs: vec![],
        ticket_id: id,
        lock_time: 0,
        fee: 0,
        witness: vec![],
    };
    assert_eq!(
        c.validate_transaction(&redeem([6u8; 32]), 1000, 0),
        Err(ConsensusError::InvalidTicket(format!("Ticket {:?} not found in live pool", [6u8; 32])))
    );
    assert_eq!(
        c.validate_transaction(&redeem([5u8; 32]), 355, 0),
        Err(ConsensusError::ImmatureTicket(format!("Ticket {:?} is not yet mature", [5u8; 32])))
    );
    assert_eq!(c.validate_transaction(&redeem([5u8; 32]), 356, 0), Ok(()));
    assert_eq!(
        c.validate_transaction(&redeem([5u8; 32]), 41_060, 0),
        Err(ConsensusError::ExpiredTicket(format!("Ticket {:?} has expired", [5u8; 32])))
    );
}

#[test]
fn chain_parameter_changes() {
    let mut c = chain();
    assert_eq!(c.apply_parameter_change("min_stake", "77"), Ok(ParameterChange::Applied));
    assert_eq!(c.params.min_stake, 77);
    assert_eq!(c.apply_parameter_change("ticket_maturity", "4294967295"), Ok(ParameterChange::Applied));
    assert_eq!(c.params.ticket_maturity, u32::MAX);
    assert_eq!(
        c.apply_parameter_change("ticket_maturity", "4294967296"),
        Err(ConsensusError::RuleViolation("Invalid u32 value for ticket_maturity: 4294967296".to_string()))
    );
    assert_eq!(c.params.ticket_maturity, u32::MAX);
    assert_eq!(
        c.apply_parameter_change("min_stake", "-1"),
        Err(ConsensusError::RuleViolation("Invalid u64 value for min_stake: -1".to_string()))
    );
    assert_eq!(c.apply_parameter_change("tickets_per_round", "9"), Ok(ParameterChange::Applied));
    assert_eq!(c.params.tickets_per_round, 9);
    assert_eq!(c.apply_parameter_change("no_such_param", "1"), Ok(ParameterChange::UnknownParameter));
    assert_eq!(c.params, {
        let mut p = params();
        p.min_stake = 77;
        p.ticket_maturity = u32::MAX;
        p.tickets_per_round = 9;
        p
    });
    assert_eq!(parameter_type("min_stake"), ParamType::U64);
    assert_eq!(parameter_type("ticket_expiry"), ParamType::U32);
    assert_eq!(parameter_type("nothing"), ParamType::Unknown);
}

#[test]
fn chain_subsidy_halves() {
    assert_eq!(get_block_subsidy(0, 210_000, 5_000_000_000), 5_000_000_000);
    assert_eq!(get_block_subsidy(209_999, 210_000, 5_000_000_000), 5_000_000_000);
    assert_eq!(get_block_subsidy(210_000, 210_000, 5_000_000_000), 2_500_000_000);
    assert_eq!(get_block_subsidy(630_000, 210_000, 5_000_000_000), 625_000_000);
    assert_eq!(get_block_subsidy(64 * 10, 10, u64::MAX), 0);
    assert_eq!(get_block_subsidy(63 * 10, 10, u64::MAX), 1);
}

#[test]
fn chain_utxo_lookup() {
    let mut c = chain();
    let op = OutPoint { txid: [8u8; 32], vout: 1 };
    assert_eq!(c.get_utxo(&op), Err(ConsensusError::MissingPreviousOutput(op)));
    c.utxo_set.add_utxo(op, Utxo { output: out(10), is_coinbase: true, creation_height: 5 });
    assert_eq!(c.get_utxo(&op), Ok(Some((out(10), 5, true))));
}

#[test]
fn chain_state_root_and_timestamp() {
    let c = chain();
    let zero_root = Block { header: header(1_000, [0u8; 32]), transactions: vec![], ticket_votes: vec![] };
    assert_eq!(
        c.validate_state_root(&zero_root, 3),
        Err(ConsensusError::StateError("State root is zero for non-genesis block".to_string()))
    );
    assert!(c.validate_state_root(&zero_root, 0).is_ok());
    let block = Block { header: header(1_000, [1u8; 32]), transactions: vec![], ticket_votes: vec![] };
    assert!(c.validate_state_root(&block, 3).is_ok());
    assert!(c.validate_block_timestamp(&block, 0, None, 0).is_ok());
    assert_eq!(
        c.validate_block_timestamp(&block, 2, None, 0),
        Err(ConsensusError::InvalidBlock("Previous block not found for timestamp validation".to_string()))
    );
    assert_eq!(
        c.validate_block_timestamp(&block, 2, Some(1_000), 0),
        Err(ConsensusError::InvalidBlock("Block timestamp 1000 is not greater than previous block timestamp 1000".to_string()))
    );
    assert!(c.validate_block_timestamp(&block, 2, Some(999), 0).is_ok());
    let late = Block { header: header(10_000, [1u8; 32]), transactions: vec![], ticket_votes: vec![] };
    assert_eq!(
        c.validate_block_timestamp(&late, 2, Some(999), 2_799),
        Err(ConsensusError::InvalidBlock("Block timestamp 10000 is more than 2 hours in the future".to_string()))
    );
    assert!(c.validate_block_timestamp(&late, 2, Some(999), 2_800).is_ok());
}

#[test]
fn chain_rewards_need_live_voters() {
    let mut c = chain();
    let vote = TicketVote { ticket_id: [5u8; 32], block_hash: [0u8; 32], vote: 1, signature: vec![] };
    let block = Block { header: header(1_000, [1u8; 32]), transactions: vec![], ticket_votes: vec![vote] };
    assert!(c.distribute_pos_rewards(&block, 100).is_err());
    c.live_tickets
        .add_ticket(Ticket { id: [5u8; 32], pubkey: vec![1u8; 32], height: 1, value: 100, status: TicketStatus::Live })
        .unwrap();
    assert!(c.distribute_pos_rewards(&block, 100).is_ok());
}

fn proposal(id: u8) -> ProposalTx {
    ProposalTx {
        proposal_id: [id; 32],
        proposer_address: [1u8; 32],
        start_block_height: 1,
        end_block_height: 9,
        description_hash: [2u8; 32],
        proposer_signature: vec![],
        inputs: vec![],
        outputs: vec![],
        lock_time: 0,
        fee: 0,
        title: "Raise the stake".to_string(),
        proposal_type: ProposalType::ParameterChange,
        target_parameter: Some("proposal_stake_amount".to_string()),
        new_value: Some("2000".to_string()),
    }
}

#[test]
fn chain_revert_block_undoes_registrations_and_proposals() {
    let mut c = chain();
    let collateral = OutPoint { txid: [6u8; 32], vout: 1 };
    c.masternode_list.register(collateral, vec![1u8; 32]);
    c.active_proposals.add_proposal(proposal(3)).unwrap();
    let register = Transaction::MasternodeRegister {
        masternode_identity: MasternodeIdentity {
            collateral_outpoint: collateral,
            operator_public_key: [1u8; 32],
            collateral_ownership_public_key: [2u8; 32],
            network_address: vec![],
        },
        signature: vec![],
        lock_time: 0,
        inputs: vec![],
        outputs: vec![out(4)],
        witness: vec![],
    };
    let block = Block {
        header: header(1_000, [1u8; 32]),
        transactions: vec![register.clone(), Transaction::GovernanceProposal(proposal(3))],
        ticket_votes: vec![],
    };
    c.utxo_set.add_utxo(OutPoint { txid: register.txid(), vout: 0 }, Utxo { output: out(4), is_coinbase: false, creation_height: 1 });
    assert_eq!(c.revert_block(&block), Ok(()));
    assert!(!c.masternode_list.get_masternode(&collateral));
    assert!(c.active_proposals.get_proposal(&[3u8; 32]).is_none());
    assert!(!c.utxo_set.contains_utxo(&OutPoint { txid: register.txid(), vout: 0 }));
    assert_eq!(c.state.tip, [1u8; 32]);
    assert_eq!(c.state.current_height, 0);

    // Undoing it again finds no proposal to remove.
    assert_eq!(c.revert_block(&block), Err(ConsensusError::ProposalNotFound([3u8; 32])));
}

#[test]
fn chain_revert_block_with_purchase_fails_after_pool_update() {
    let mut c = chain();
    c.live_tickets
        .add_ticket(Ticket { id: [5u8; 32], pubkey: vec![1u8; 32], height: 1, value: 100, status: TicketStatus::Live })
        .unwrap();
    let purchase = Transaction::TicketPurchase {
        version: 1,
        inputs: vec![],
        outputs: vec![],
        ticket_id: [5u8; 32],
        locked_amount: 100,
        lock_time: 0,
        fee: 0,
        ticket_address: vec![1u8; 32],
        witness: vec![],
    };
    let block = Block { header: header(1_000, [1u8; 32]), transactions: vec![purchase], ticket_votes: vec![] };
    // The pool update already took the ticket out, so removing it again fails.
    assert_eq!(c.revert_block(&block), Err(ConsensusError::InvalidTicket("Ticket not found in live pool.".to_string())));
    assert!(c.live_tickets.get_ticket(&[5u8; 32]).is_none());
    assert_eq!(c.state.current_height, 0);
}

fn block_at(height: u64, previous: [u8; 32], txs: Vec<Transaction>) -> Block {
    let mut h = header(1_000, [2u8; 32]);
    h.height = height;
    h.previous_block_hash = previous;
    Block { header: h, transactions: txs, ticket_votes: vec![] }
}

fn null_coinbase(values: Vec<u64>) -> Transaction {
    Transaction::Coinbase {
        version: 1,
        inputs: vec![TxInput::from_outpoint(OutPoint { txid: [0u8; 32], vout: u32::MAX }, vec![], 0, vec![])],
        outputs: values.into_iter().map(out).collect(),
        lock_time: 0,
        witness: vec![],
    }
}

#[test]
fn chain_latest_block_follows_stored_height() {
    let mut c = chain();
    assert_eq!(c.get_latest_block(), Ok(None));
    let b = block_at(3, [1u8; 32], vec![null_coinbase(vec![1])]);
    c.state.put_block(&b).unwrap();
    c.state.set_current_block_height(3).unwrap();
    assert_eq!(c.get_latest_block(), Ok(Some(b)));
    c.state.set_current_block_height(4).unwrap();
    assert_eq!(c.get_latest_block(), Ok(None));
}

#[test]
fn chain_genesis_checks_before_proof_of_work() {
    let mut c = chain();
    assert_eq!(c.validate_genesis_block(), Err(ConsensusError::InvalidBlock("Genesis block not found".to_string())));
    c.state.put_block(&block_at(0, [1u8; 32], vec![null_coinbase(vec![1])])).unwrap();
    assert_eq!(
        c.validate_genesis_block(),
        Err(ConsensusError::InvalidBlock("Genesis block has non-zero previous block hash".to_string()))
    );
    c.state.put_block(&block_at(0, [0u8; 32], vec![])).unwrap();
    assert_eq!(c.validate_genesis_block(), Err(ConsensusError::InvalidBlock("Genesis block has no transactions".to_string())));
    let mut v2 = block_at(0, [0u8; 32], vec![null_coinbase(vec![1])]);
    v2.header.version = 2;
    c.state.put_block(&v2).unwrap();
    assert_eq!(c.validate_genesis_block(), Err(ConsensusError::InvalidBlock("Genesis block version is not 1".to_string())));
    // A block at height 5 stored under height 0.
    let stray = block_at(5, [0u8; 32], vec![null_coinbase(vec![1])]);
    c.state.put_block(&stray).unwrap();
    c.state.put_block_hash(0, stray.hash()).unwrap();
    assert_eq!(c.validate_genesis_block(), Err(ConsensusError::InvalidBlock("Genesis block height is not 0".to_string())));
}

#[test]
fn chain_coinbase_reward_tolerance() {
    let c = chain();
    let b = block_at(1, [1u8; 32], vec![]);
    // Subsidy 50 at height 1 (halving every 210 000): up to 50 + 0 allowed.
    assert!(c.validate_coinbase_transaction(&null_coinbase(vec![20, 30]), &b, 1));
    assert!(!c.validate_coinbase_transaction(&null_coinbase(vec![51]), &b, 1));
    assert!(!c.validate_coinbase_transaction(&null_coinbase(vec![]), &b, 1));
    let wrong_vout = Transaction::Coinbase {
        version: 1,
        inputs: vec![TxInput::from_outpoint(OutPoint { txid: [0u8; 32], vout: 0 }, vec![], 0, vec![])],
        outputs: vec![out(1)],
        lock_time: 0,
        witness: vec![],
    };
    assert!(!c.validate_coinbase_transaction(&wrong_vout, &b, 1));
    assert!(!c.validate_coinbase_transaction(&standard(vec![], vec![out(1)], 0, 0), &b, 1));
}

#[test]
fn chain_block_transaction_rules() {
    let c = chain();
    let empty = block_at(1, [1u8; 32], vec![]);
    assert_eq!(c.validate_block_transactions(&empty, 1, 0), Err(ConsensusError::InvalidBlock("Block contains no transactions".to_string())));
    let no_cb = block_at(1, [1u8; 32], vec![standard(vec![], vec![], 0, 0)]);
    assert_eq!(
        c.validate_block_transactions(&no_cb, 1, 0),
        Err(ConsensusError::InvalidBlock("First transaction in block is not coinbase".to_string()))
    );
    let greedy = block_at(1, [1u8; 32], vec![null_coinbase(vec![60])]);
    assert_eq!(
        c.validate_block_transactions(&greedy, 1, 0),
        Err(ConsensusError::InvalidCoinbase("Coinbase transaction validation failed".to_string()))
    );
    let two_cb = block_at(1, [1u8; 32], vec![null_coinbase(vec![1]), null_coinbase(vec![2])]);
    assert_eq!(
        c.validate_block_transactions(&two_cb, 1, 0),
        Err(ConsensusError::InvalidBlock("Multiple coinbase transactions in block".to_string()))
    );
    let unpaid = block_at(1, [1u8; 32], vec![null_coinbase(vec![1]), standard(vec![], vec![out(5)], 0, 0)]);
    assert_eq!(
        c.validate_block_transactions(&unpaid, 1, 0),
        Err(ConsensusError::TransactionValidation("Non-coinbase transaction validation failed".to_string()))
    );
    let fine = block_at(1, [1u8; 32], vec![null_coinbase(vec![1]), standard(vec![], vec![], 0, 0)]);
    assert_eq!(c.validate_block_transactions(&fine, 1, 0), Ok(()));
    assert!(c.validate_non_coinbase_transaction(&standard(vec![], vec![], 0, 0), 1, 0));
}

fn signing_key(seed: u8) -> ed25519_dalek::Keypair {
    let secret = ed25519_dalek::SecretKey::from_bytes(&[seed; 32]).unwrap();
    let public: ed25519_dalek::PublicKey = (&secret).into();
    ed25519_dalek::Keypair { secret, public }
}

fn signed(key: &ed25519_dalek::Keypair, msg: &[u8]) -> Vec<u8> {
    key.sign(msg).to_bytes().to_vec()
}

/// A proposal at chain height 0 that passes every check of the chain's parameters.
fn fresh_proposal(key: &ed25519_dalek::Keypair, msg: &[u8]) -> ProposalTx {
    ProposalTx {
        proposal_id: [9u8; 32],
        proposer_address: key.public.to_bytes(),
        start_block_height: 5,
        end_block_height: 14,
        description_hash: [2u8; 32],
        proposer_signature: signed(key, msg),
        inputs: vec![TxInput { previous_output: OutPoint { txid: [1u8; 32], vout: 0 }, script_sig: vec![], sequence: 0, witness: vec![] }],
        outputs: vec![
            TxOutput { value: 60, script_pubkey: vec![], memo: None },
            TxOutput { value: 40, script_pubkey: vec![], memo: None },
        ],
        lock_time: 0,
        fee: 0,
        title: "Raise the stake".to_string(),
        proposal_type: ProposalType::ParameterChange,
        target_parameter: Some("proposal_stake_amount".to_string()),
        new_value: Some("2000".to_string()),
    }
}

fn rule(text: &str) -> Result<(), ConsensusError> {
    Err(ConsensusError::RuleViolation(text.to_string()))
}

#[test]
fn governance_proposal_passing_every_check_is_put_to_vote() {
    let key = signing_key(7);
    let msg = b"canonical proposal".to_vec();
    let mut c = chain();
    let p = fresh_proposal(&key, &msg);
    assert_eq!(c.process_governance_proposal(p.clone(), 0, &[9u8; 32], &Ok(msg.clone())), Ok(()));
    assert_eq!(c.active_proposals.get_proposal(&[9u8; 32]), Some(&p));
    // The same proposal a second time is refused by id.
    assert_eq!(
        c.process_governance_proposal(p, 0, &[9u8; 32], &Ok(msg)),
        Err(ConsensusError::ProposalAlreadyExists([9u8; 32]))
    );
}

#[test]
fn governance_proposal_checks_come_in_order() {
    let key = signing_key(7);
    let msg = b"canonical proposal".to_vec();
    let mut c = chain();
    let ok = Ok(msg.clone());
    let p = fresh_proposal(&key, &msg);
    assert_eq!(
        c.process_governance_proposal(p.clone(), 5, &[9u8; 32], &ok),
        rule("Governance proposal voting start height must be in the future.")
    );
    let mut q = p.clone();
    q.end_block_height = 5;
    assert_eq!(
        c.process_governance_proposal(q, 0, &[9u8; 32], &ok),
        rule("Governance proposal end height must be greater than start height.")
    );
    let mut q = p.clone();
    q.end_block_height = 13;
    assert_eq!(
        c.process_governance_proposal(q, 0, &[9u8; 32], &ok),
        rule("Governance proposal voting window (9) must equal configured voting period (10).")
    );
    let mut q = p.clone();
    q.title = "é".repeat(129);
    assert_eq!(c.process_governance_proposal(q, 0, &[9u8; 32], &ok), rule("Governance proposal title exceeds 128 characters."));
    let mut q = p.clone();
    q.title = "é".repeat(128);
    assert_eq!(c.process_governance_proposal(q, 0, &[8u8; 32], &ok), rule("Governance proposal ID does not match canonical hash."));
    let mut q = p.clone();
    q.inputs.clear();
    assert_eq!(
        c.process_governance_proposal(q, 0, &[9u8; 32], &ok),
        rule("Governance proposal must include at least one input to lock stake.")
    );
    let mut q = p.clone();
    q.outputs.clear();
    assert_eq!(
        c.process_governance_proposal(q, 0, &[9u8; 32], &ok),
        rule("Governance proposal must include at least one output for stake escrow.")
    );
    let mut q = p.clone();
    q.outputs[1].value = 39;
    assert_eq!(
        c.process_governance_proposal(q, 0, &[9u8; 32], &ok),
        rule("Governance proposal must lock at least 100 satoshis of stake.")
    );
    assert_eq!(
        c.process_governance_proposal(p.clone(), 0, &[9u8; 32], &Err("unencodable".to_string())),
        Err(ConsensusError::SerializationError("unencodable".to_string()))
    );
    let mut q = p.clone();
    q.proposer_signature.truncate(10);
    assert_eq!(
        c.process_governance_proposal(q, 0, &[9u8; 32], &ok),
        Err(ConsensusError::InvalidSignature("Invalid proposer signature encoding for governance proposal.".to_string()))
    );
    assert_eq!(
        c.process_governance_proposal(p.clone(), 0, &[9u8; 32], &Ok(b"other bytes".to_vec())),
        Err(ConsensusError::InvalidSignature("Invalid proposer signature for governance proposal.".to_string()))
    );
    assert!(c.active_proposals.get_proposal(&[9u8; 32]).is_none());
}

fn vote_by(key: &ed25519_dalek::Keypair, voter_type: VoterType, msg: &[u8]) -> VoteTx {
    VoteTx {
        proposal_id: [9u8; 32],
        voter_id: key.public.to_bytes(),
        vote_choice: VoteChoice::Yes,
        voter_signature: signed(key, msg),
        inputs: vec![],
        outputs: vec![],
        lock_time: 0,
        fee: 0,
        voter_type,
    }
}

/// A chain with the fresh proposal under vote (voting heights 5 to 14).
fn chain_with_proposal(proposer: &ed25519_dalek::Keypair) -> Blockchain {
    let msg = b"canonical proposal".to_vec();
    let mut c = chain();
    c.process_governance_proposal(fresh_proposal(proposer, &msg), 0, &[9u8; 32], &Ok(msg)).unwrap();
    c
}

#[test]
fn governance_vote_by_a_live_ticket_is_counted() {
    let voter = signing_key(3);
    let mut c = chain_with_proposal(&signing_key(7));
    c.live_tickets
        .add_ticket(Ticket { id: [5u8; 32], pubkey: voter.public.to_bytes().to_vec(), height: 1, value: 100, status: TicketStatus::Live })
        .unwrap();
    let msg = b"canonical vote".to_vec();
    let v = vote_by(&voter, VoterType::PosTicket, &msg);
    assert_eq!(c.process_governance_vote(v.clone(), 6, &Ok(msg)), Ok(()));
    let votes = c.active_proposals.get_votes_for_proposal(&[9u8; 32]).unwrap();
    assert_eq!(votes.get(&voter.public.to_bytes()), Some(&v));
}

#[test]
fn governance_vote_checks_proposal_window_and_ticket() {
    let voter = signing_key(3);
    let mut c = chain_with_proposal(&signing_key(7));
    let msg = b"canonical vote".to_vec();
    let v = vote_by(&voter, VoterType::PosTicket, &msg);
    let mut other = v.clone();
    other.proposal_id = [1u8; 32];
    assert_eq!(
        c.process_governance_vote(other, 6, &Ok(msg.clone())),
        Err(ConsensusError::InvalidTicketVote("Vote for non-existent proposal.".to_string()))
    );
    assert_eq!(
        c.process_governance_vote(v.clone(), 15, &Ok(msg.clone())),
        Err(ConsensusError::InvalidTicketVote("Vote outside of proposal voting period.".to_string()))
    );
    let mut short = v.clone();
    short.voter_signature.truncate(63);
    assert_eq!(
        c.process_governance_vote(short, 6, &Ok(msg.clone())),
        Err(ConsensusError::InvalidSignature("Invalid voter signature encoding.".to_string()))
    );
    assert_eq!(
        c.process_governance_vote(v.clone(), 6, &Ok(msg.clone())),
        Err(ConsensusError::InvalidTicketVote("Voting ticket not found in live pool.".to_string()))
    );
    c.live_tickets
        .add_ticket(Ticket { id: [5u8; 32], pubkey: voter.public.to_bytes().to_vec(), height: 1, value: 100, status: TicketStatus::Voted })
        .unwrap();
    assert_eq!(
        c.process_governance_vote(v.clone(), 6, &Ok(msg.clone())),
        Err(ConsensusError::InvalidTicketVote("Voting ticket is not active.".to_string()))
    );
    c.live_tickets
        .add_ticket(Ticket { id: [5u8; 32], pubkey: voter.public.to_bytes().to_vec(), height: 1, value: 100, status: TicketStatus::Live })
        .unwrap();
    assert_eq!(
        c.process_governance_vote(v, 6, &Ok(b"other bytes".to_vec())),
        Err(ConsensusError::InvalidSignature("Invalid signature for ticket vote.".to_string()))
    );
    assert!(c.active_proposals.get_votes_for_proposal(&[9u8; 32]).unwrap().entries().is_empty());
}

#[test]
fn governance_vote_by_a_masternode_needs_an_active_registration() {
    let voter = signing_key(4);
    let mut c = chain_with_proposal(&signing_key(7));
    let msg = b"canonical vote".to_vec();
    let v = vote_by(&voter, VoterType::Masternode, &msg);
    assert_eq!(
        c.process_governance_vote(v.clone(), 6, &Ok(msg.clone())),
        Err(ConsensusError::MasternodeError("Voting masternode not found or not active.".to_string()))
    );
    let collateral = OutPoint { txid: [6u8; 32], vout: 0 };
    c.masternode_list.register(collateral, voter.public.to_bytes().to_vec());
    assert!(c.masternode_list.update_masternode_status(&collateral, MasternodeStatus::Banned));
    assert_eq!(
        c.process_governance_vote(v.clone(), 6, &Ok(msg.clone())),
        Err(ConsensusError::MasternodeError("Masternode voter is not active.".to_string()))
    );
    assert!(c.masternode_list.update_masternode_status(&collateral, MasternodeStatus::Active));
    assert_eq!(c.masternode_list.count_active_masternodes(), 1);
    assert_eq!(c.process_governance_vote(v, 14, &Ok(msg)), Ok(()));
}

#[test]
fn governance_evaluation_removes_a_due_proposal_without_quorum() {
    let mut c = chain_with_proposal(&signing_key(7));
    // Voting closes at 14 and the activation delay is 10 blocks: at 24 it is not yet due.
    assert_eq!(c.evaluate_and_apply_governance(24, 5_000, 5_000, 6_667, 6_667), Ok(()));
    assert!(c.active_proposals.get_proposal(&[9u8; 32]).is_some());
    // At 25 it is due; no votes were cast, so the quorum is not met and it is removed.
    assert_eq!(c.evaluate_and_apply_governance(25, 5_000, 5_000, 6_667, 6_667), Ok(()));
    assert!(c.active_proposals.get_proposal(&[9u8; 32]).is_none());
    assert_eq!(c.params.proposal_stake_amount, 100);
}

#[test]
fn governance_evaluation_applies_a_passed_parameter_change() {
    let mut c = chain_with_proposal(&signing_key(7));
    let msg = b"canonical vote".to_vec();
    c.active_proposals.record_vote(vote_by(&signing_key(3), VoterType::PosTicket, &msg)).unwrap();
    c.active_proposals.record_vote(vote_by(&signing_key(4), VoterType::Masternode, &msg)).unwrap();
    // No live tickets or masternodes: any cast vote meets the quorum, and all are yes.
    assert_eq!(c.evaluate_and_apply_governance(25, 5_000, 5_000, 6_667, 6_667), Ok(()));
    assert_eq!(c.params.proposal_stake_amount, 2000);
    assert!(c.active_proposals.get_proposal(&[9u8; 32]).is_none());
}

#[test]
fn governance_evaluation_stops_at_a_failed_parameter_change() {
    let key = signing_key(7);
    let msg = b"canonical proposal".to_vec();
    let mut c = chain();
    let mut p = fresh_proposal(&key, &msg);
    p.new_value = Some("lots".to_string());
    c.active_proposals.add_proposal(p).unwrap();
    let vote_msg = b"canonical vote".to_vec();
    c.active_proposals.record_vote(vote_by(&signing_key(3), VoterType::PosTicket, &vote_msg)).unwrap();
    c.active_proposals.record_vote(vote_by(&signing_key(4), VoterType::Masternode, &vote_msg)).unwrap();
    assert_eq!(
        c.evaluate_and_apply_governance(25, 5_000, 5_000, 6_667, 6_667),
        Err(ConsensusError::RuleViolation("Invalid u64 value for proposal_stake_amount: lots".to_string()))
    );
    assert!(c.active_proposals.get_proposal(&[9u8; 32]).is_some());
    assert_eq!(c.params, params());
}

fn registration(collateral: OutPoint, operator: u8) -> Transaction {
    Transaction::MasternodeRegister {
        masternode_identity: MasternodeIdentity {
            collateral_outpoint: collateral,
            operator_public_key: [operator; 32],
            collateral_ownership_public_key: [2u8; 32],
            network_address: vec![],
        },
        signature: vec![],
        lock_time: 0,
        inputs: vec![],
        outputs: vec![],
        witness: vec![],
    }
}

#[test]
fn chain_process_block_stores_a_valid_block_as_tip() {
    let mut c = chain();
    let collateral = OutPoint { txid: [6u8; 32], vout: 1 };
    let coinbase = null_coinbase(vec![50]);
    let b = block_at(1, [1u8; 32], vec![coinbase.clone(), registration(collateral, 8)]);
    assert_eq!(c.process_block(&b, 2_000, 5_000, 5_000, 6_667, 6_667), Ok(()));
    let minted = OutPoint { txid: coinbase.txid(), vout: 0 };
    assert!(c.utxo_set.contains_utxo(&minted));
    assert!(c.masternode_list.get_masternode(&collateral));
    assert_eq!(c.masternode_list.count_active_masternodes(), 1);
    assert_eq!(c.state.tip, b.hash());
    assert_eq!(c.state.current_height, 1);
    assert_eq!(c.state.get_block(1), Ok(Some(b)));
}

#[test]
fn chain_process_block_refuses_the_first_bad_transaction_and_changes_nothing() {
    let mut c = chain();
    let missing = OutPoint { txid: [7u8; 32], vout: 0 };
    let spend = standard(vec![TxInput::from_outpoint(missing, vec![], 0, vec![])], vec![out(1)], 0, 0);
    let b = block_at(1, [1u8; 32], vec![null_coinbase(vec![50]), spend, registration(OutPoint { txid: [6u8; 32], vout: 1 }, 8)]);
    assert_eq!(c.process_block(&b, 2_000, 5_000, 5_000, 6_667, 6_667), Err(ConsensusError::MissingPreviousOutput(missing)));
    assert!(c.utxo_set.get_utxo(&OutPoint { txid: null_coinbase(vec![50]).txid(), vout: 0 }).is_none());
    assert_eq!(c.masternode_list.count_active_masternodes(), 0);
    assert_eq!(c.state.current_height, 0);
    assert_eq!(c.state.get_block(1), Ok(None));
}

#[test]
fn chain_process_block_stops_at_a_malformed_purchase_after_applying_outputs() {
    let mut c = chain();
    let funding = OutPoint { txid: [9u8; 32], vout: 0 };
    c.utxo_set.add_utxo(funding, Utxo { output: out(100), is_coinbase: false, creation_height: 0 });
    let purchase = Transaction::TicketPurchase {
        version: 1,
        inputs: vec![TxInput::from_outpoint(funding, vec![], 0, vec![])],
        outputs: vec![TxOutput { value: 100, script_pubkey: vec![3u8; 31], memo: None }],
        ticket_id: [5u8; 32],
        locked_amount: 100,
        lock_time: 0,
        fee: 0,
        ticket_address: vec![3u8; 31],
        witness: vec![],
    };
    let coinbase = null_coinbase(vec![50]);
    let b = block_at(1, [1u8; 32], vec![coinbase.clone(), purchase]);
    assert_eq!(
        c.process_block(&b, 2_000, 5_000, 5_000, 6_667, 6_667),
        Err(ConsensusError::InvalidTicket("Invalid public key length in ticket address.".to_string()))
    );
    // The outputs were applied before the pool refused the purchase; the block was not stored.
    assert!(c.utxo_set.contains_utxo(&OutPoint { txid: coinbase.txid(), vout: 0 }));
    assert!(!c.utxo_set.contains_utxo(&funding));
    assert_eq!(c.state.current_height, 0);
    assert_eq!(c.state.get_block(1), Ok(None));
}

#[test]
fn chain_new_starts_empty() {
    let c = Blockchain::new(params());
    assert_eq!(c.tip, [0u8; 32]);
    assert_eq!(c.live_tickets.count_live_tickets(), 0);
    assert_eq!(c.masternode_list.total_voting_power(), 0);
    assert_eq!(c.state.current_height, 0);
    assert_eq!(c.get_latest_block(), Ok(None));
    assert_eq!(c.params, params());
}

#[test]
fn chain_revert_takes_back_the_registrations_of_a_processed_block() {
    let mut c = Blockchain::new(params());
    let kept = OutPoint { txid: [3u8; 32], vout: 0 };
    c.masternode_list.register(kept, vec![9u8; 32]);
    let collateral = OutPoint { txid: [6u8; 32], vout: 1 };
    let b = block_at(1, [1u8; 32], vec![null_coinbase(vec![50]), registration(collateral, 8)]);
    assert_eq!(c.process_block(&b, 2_000, 5_000, 5_000, 6_667, 6_667), Ok(()));
    assert!(c.masternode_list.get_masternode(&collateral));
    assert_eq!(c.revert_block(&b), Ok(()));
    assert!(!c.masternode_list.get_masternode(&collateral));
    assert!(c.masternode_list.get_masternode(&kept));
    assert_eq!(c.state.tip, [1u8; 32]);
    assert_eq!(c.state.current_height, 0);
}

#[test]
fn chain_active_masternodes_and_collateral_consistency() {
    let mut c = Blockchain::new(params());
    let a = OutPoint { txid: [1u8; 32], vout: 0 };
    let b = OutPoint { txid: [2u8; 32], vout: 0 };
    c.masternode_list.register(a, vec![7u8; 32]);
    c.masternode_list.register(b, vec![8u8; 32]);
    assert_eq!(c.active_masternodes(), vec![a, b]);
    // Neither collateral is an unspent output yet.
    assert!(!c.validate_state_consistency());
    c.utxo_set.add_utxo(a, Utxo { output: out(1_000), is_coinbase: false, creation_height: 0 });
    assert!(!c.validate_state_consistency());
    // A banned masternode's collateral is not checked.
    assert!(c.masternode_list.update_masternode_status(&b, MasternodeStatus::Banned));
    assert_eq!(c.active_masternodes(), vec![a]);
    assert!(c.validate_state_consistency());
}

fn chain_at(height: u64) -> (Blockchain, Block) {
    let mut c = chain();
    let mut tip = block_at(height, [1u8; 32], vec![null_coinbase(vec![50])]);
    tip.header.difficulty_target = 7;
    c.state.put_block(&tip).unwrap();
    c.state.set_current_block_height(height).unwrap();
    (c, tip)
}

fn pool_with_one() -> (rusty_core::mempool::Mempool, Transaction) {
    let mut pool = rusty_core::mempool::Mempool::new();
    let tx = standard(vec![], vec![out(3)], 0, 0);
    assert_eq!(pool.add_transaction(tx.clone()), Ok(true));
    (pool, tx)
}

#[test]
fn chain_add_block_refuses_a_fork_and_changes_nothing() {
    let (mut c, tip) = chain_at(3);
    let (mut pool, tx) = pool_with_one();
    let mut b = block_at(4, [9u8; 32], vec![null_coinbase(vec![50]), tx.clone()]);
    b.header.difficulty_target = 7;
    let expected = format!(
        "Fork detected: Incoming block's previous hash {:?} does not match current tip {:?}",
        [9u8; 32],
        tip.hash()
    );
    assert_eq!(c.add_block(b.clone(), &AssocList::new(), &mut pool, 50, 10), Err(ConsensusError::InvalidBlock(expected)));
    assert!(pool.contains_transaction(&tx.txid()));
    assert_eq!(c.state.get_block(4), Ok(None));
    assert_eq!(c.state.current_height, 0);
}

#[test]
fn chain_add_block_needs_the_latest_block() {
    let mut c = chain();
    c.state.set_current_block_height(3).unwrap();
    let (mut pool, _) = pool_with_one();
    let b = block_at(4, [1u8; 32], vec![null_coinbase(vec![50])]);
    assert_eq!(
        c.add_block(b.clone(), &AssocList::new(), &mut pool, 50, 10),
        Err(ConsensusError::Internal("Last block not found for validation".to_string()))
    );
    assert_eq!(pool.len(), 1);
}

#[test]
fn chain_add_block_needs_the_first_block_of_the_interval() {
    // 2016 is a difficulty-adjustment height; the block at height 0 is not stored.
    let (mut c, tip) = chain_at(2016);
    let (mut pool, _) = pool_with_one();
    let mut b = block_at(2017, tip.hash(), vec![null_coinbase(vec![50])]);
    b.header.difficulty_target = 7;
    assert_eq!(
        c.add_block(b.clone(), &AssocList::new(), &mut pool, 50, 10),
        Err(ConsensusError::Internal("First block in interval not found".to_string()))
    );
}

#[test]
fn chain_add_block_keeps_the_difficulty_between_adjustments() {
    let (mut c, tip) = chain_at(3);
    let (mut pool, tx) = pool_with_one();
    let mut b = block_at(4, tip.hash(), vec![null_coinbase(vec![50]), tx.clone()]);
    b.header.difficulty_target = 8;
    assert_eq!(c.add_block(b.clone(), &AssocList::new(), &mut pool, 50, 10), Err(ConsensusError::InvalidProofOfWork));
    assert!(pool.contains_transaction(&tx.txid()));
    assert_eq!(c.state.get_block(4), Ok(None));
    assert_eq!(c.state.tip, [0u8; 32]);
}

#[test]
fn chain_float_parameter_text_must_read_as_f64() {
    let mut c = chain();
    for ok in ["0.5", "1", "-2.", ".25", "1e3", "+6.02E+23", "inf", "-Infinity", "NaN"] {
        assert_eq!(c.apply_parameter_change("pos_reward_ratio", ok), Ok(ParameterChange::FloatParameter), "{}", ok);
        assert!(ok.parse::<f64>().is_ok(), "{}", ok);
    }
    for bad in ["", ".", "abc", "1.2.3", "1e", "e5", " 1", "0x10", "infinit"] {
        assert_eq!(
            c.apply_parameter_change("pos_reward_ratio", bad),
            Err(ConsensusError::RuleViolation(format!("Invalid f64 value for pos_reward_ratio: {}", bad))),
            "{}",
            bad
        );
        assert!(bad.parse::<f64>().is_err(), "{}", bad);
    }
    assert_eq!(c.params, params());
}

#[test]
fn chain_process_block_evaluates_due_proposals() {
    let mut c = chain_with_proposal(&signing_key(7));
    let msg = b"canonical vote".to_vec();
    c.active_proposals.record_vote(vote_by(&signing_key(3), VoterType::PosTicket, &msg)).unwrap();
    c.active_proposals.record_vote(vote_by(&signing_key(4), VoterType::Masternode, &msg)).unwrap();
    let b = block_at(25, [1u8; 32], vec![null_coinbase(vec![50])]);
    assert_eq!(c.process_block(&b, 2_000, 5_000, 5_000, 6_667, 6_667), Ok(()));
    assert_eq!(c.params.proposal_stake_amount, 2000);
    assert!(c.active_proposals.get_proposal(&[9u8; 32]).is_none());
    assert_eq!(c.state.tip, b.hash());
}

#[test]
fn chain_block_reward_is_subsidy_plus_fees() {
    let mut c = chain();
    let funding = OutPoint { txid: [9u8; 32], vout: 0 };
    c.utxo_set.add_utxo(funding, Utxo { output: out(100), is_coinbase: false, creation_height: 0 });
    let spend = standard(vec![TxInput::from_outpoint(funding, vec![], 0, vec![])], vec![out(70)], 0, 0);
    let unknown = standard(vec![TxInput::from_outpoint(OutPoint { txid: [8u8; 32], vout: 0 }, vec![], 0, vec![])], vec![out(5)], 0, 0);
    // The coinbase's own outputs are no fee; the unknown input leaves none.
    let b = block_at(1, [1u8; 32], vec![null_coinbase(vec![50]), spend, unknown]);
    assert_eq!(c.block_reward_total(&b), 50 + 30);
    let later = block_at(210_000, [1u8; 32], vec![null_coinbase(vec![50])]);
    assert_eq!(c.block_reward_total(&later), 25);
}

fn pose_challenge(target: OutPoint, height: u64) -> PoSeChallenge {
    PoSeChallenge {
        nonce: 1,
        challenge_block_hash: [4u8; 32],
        challenger_masternode_id: target,
        challenge_generation_block_height: height,
        signature: vec![],
    }
}

#[test]
fn chain_pose_response_checks_in_order_and_never_passes() {
    let operator = signing_key(5);
    let target = OutPoint { txid: [6u8; 32], vout: 0 };
    let challenge = pose_challenge(target, 0);
    let msg = b"encoded challenge".to_vec();
    let good = PoSeResponse { target_masternode_id: target, signed_block_hash: signed(&operator, &msg) };
    let mut c = chain();
    assert_eq!(
        c.process_pose_response(&challenge, &good, &msg),
        Err(ConsensusError::MasternodeError("Target masternode not found.".to_string()))
    );
    c.masternode_list.register(target, vec![1u8; 31]);
    assert_eq!(
        c.process_pose_response(&challenge, &good, &msg),
        Err(ConsensusError::Internal("Invalid operator public key length".to_string()))
    );
    c.masternode_list.register(target, operator.public.to_bytes().to_vec());
    let forged = PoSeResponse { target_masternode_id: target, signed_block_hash: signed(&signing_key(6), &msg) };
    assert_eq!(
        c.process_pose_response(&challenge, &forged, &msg),
        Err(ConsensusError::InvalidPoSeResponse("Invalid PoSe response signature".to_string()))
    );
    // In time, the 64-byte signature is then compared with the 32-byte block hash.
    assert_eq!(
        c.process_pose_response(&challenge, &good, &msg),
        Err(ConsensusError::InvalidPoSeResponse("Incorrect block hash in PoSe response".to_string()))
    );
    // The challenge period is 10 blocks: at height 11 a challenge from height 0 has expired.
    c.state.set_current_block_height(11).unwrap();
    assert_eq!(
        c.process_pose_response(&challenge, &good, &msg),
        Err(ConsensusError::PoSeChallengeExpired("Challenge expired".to_string()))
    );
}
