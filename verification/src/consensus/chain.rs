//! The chain's own view of its state (unspent outputs, live tickets, masternodes,
//! proposals and parameters) and the rules it applies to transactions and stake votes.
use vstd::prelude::*;
use crate::bytes::{hash_eq, hash_is_zero, is_zero_hash, bytes_eq};
use crate::consensus::error::{message, ConsensusError, ErrorModel};
use crate::consensus::governance_state::ActiveProposals;
use crate::consensus::state::BlockchainState;
use crate::consensus::pos::{select_voters, validate_ticket_signature, voters_selected, LiveTicketsPool, SignatureError};
use crate::crypto::{ed25519_point_decompresses, ed25519_verifies, signature_decodes};
use crate::consensus::utxo_set::UtxoSet;
use crate::governance::MasternodeList;
use crate::network::sync_manager::{format_outpoint, outpoint_text};
use crate::script::engine::{height_in_bounds, EngineModel, ScriptEngine};
use crate::script::validation::{spec_validate_from, MAX_COUNTED_INPUTS};
use crate::text::{byte_list, decimal, f64_syntax, is_f64_text, parse_unsigned, parsed_unsigned, push_byte_list, push_decimal, push_text, str_eq};
use crate::types::{Block, OutPoint, TicketModel, TicketStatus, TicketVote, Transaction, TxInput, TxOutput, UtxoModel};

verus! {

/// The parameters of the chain that governance can change.
#[derive(Debug, Clone, Copy, PartialEq, Eq)]
pub struct ConsensusParams {
    pub min_stake: u64,
    pub max_tickets_per_stake: u32,
    pub ticket_price: u64,
    pub ticket_maturity: u32,
    pub ticket_expiry: u32,
    pub min_block_time: u64,
    pub reward_amount: u64,
    pub target_live_tickets: u64,
    pub difficulty_adjustment_window: u32,
    pub halving_interval: u64,
    pub initial_block_reward: u64,
    pub ticket_price_adjustment_period: u64,
    pub max_ticket_price: u64,
    pub min_ticket_price: u64,
    pub proposal_stake_amount: u64,
    pub voting_period_blocks: u64,
    pub activation_delay_blocks: u64,
    pub grace_period_blocks: u64,
    pub slash_forgiveness_period: u64,
    pub pose_challenge_period_blocks: u64,
    pub num_pose_challengers: u32,
    pub num_pose_targets_per_period: u32,
    pub pose_response_timeout_seconds: u64,
    pub max_pose_failures: u32,
    pub reset_failures_period: u32,
    pub min_witness_signatures: u32,
    pub pos_finality_depth: u32,
    pub max_block_size: u64,
    pub max_tx_size: usize,
    pub block_reward: u64,
    pub coinbase_maturity: u32,
    pub dust_limit: u64,
    pub min_relay_tx_fee: u64,
    pub masternode_collateral_amount: u64,
    pub max_inactivity_blocks: u32,
    pub tickets_per_round: usize,
}

/// The chain's state as its rules read it.
pub struct Blockchain {
    pub tip: [u8; 32],
    pub live_tickets: LiveTicketsPool,
    pub utxo_set: UtxoSet,
    pub masternode_list: MasternodeList,
    pub params: ConsensusParams,
    pub active_proposals: ActiveProposals,
    pub state: BlockchainState,
}

/// Blocks before a coinbase output can be spent.
pub const COINBASE_MATURITY_PERIOD_BLOCKS: u64 = 100;

/// Lock times below this are block heights; from it on they are timestamps.
pub const LOCKTIME_THRESHOLD: u32 = 500_000_000;

/// Whether the scripts of every input of a transaction run successfully against the
/// outputs they spend.
pub open spec fn scripts_valid(tx: Transaction, utxos: Map<OutPoint, UtxoModel>, height: u64) -> bool {
    spec_validate_from(EngineModel::initial().with_sig_ops(0), tx, utxos, height, 0).1
}

/// Why the `n`-th input fails the spend check, if it does: its output is unknown, or it is
/// an immature coinbase output.
pub open spec fn spend_error(i: TxInput, utxos: Map<OutPoint, UtxoModel>, height: u64) -> Option<ErrorModel> {
    let op = i.previous_output;
    if !utxos.dom().contains(op) {
        Some(ErrorModel::MissingPreviousOutput(op))
    } else if utxos[op].is_coinbase && height - utxos[op].creation_height < COINBASE_MATURITY_PERIOD_BLOCKS {
        Some(ErrorModel::ImmatureTicket("Coinbase UTXO "@ + outpoint_text(op) + " is not yet mature"@))
    } else {
        None
    }
}

/// The error of the first of the first `n` inputs that fails the spend check, if any.
pub open spec fn first_spend_error(ins: Seq<TxInput>, utxos: Map<OutPoint, UtxoModel>, height: u64, n: int) -> Option<ErrorModel>
    decreases n,
{
    if n <= 0 {
        None
    } else {
        match first_spend_error(ins, utxos, height, n - 1) {
            Some(e) => Some(e),
            None => spend_error(ins[n - 1], utxos, height),
        }
    }
}

/// The spend check never subtracts a coinbase output's height from a smaller chain height:
/// every coinbase output it reaches was created at or below `height`.
pub open spec fn maturity_defined(ins: Seq<TxInput>, utxos: Map<OutPoint, UtxoModel>, height: u64) -> bool {
    forall|i: int|
        0 <= i < ins.len() && first_spend_error(ins, utxos, height, i) is None && utxos.dom().contains(
            #[trigger] ins[i].previous_output,
        ) && utxos[ins[i].previous_output].is_coinbase ==> utxos[ins[i].previous_output].creation_height <= height
}

/// The value the first `n` inputs spend, counting only inputs whose output is known.
pub open spec fn known_input_sum(ins: Seq<TxInput>, utxos: Map<OutPoint, UtxoModel>, n: int) -> nat
    decreases n,
{
    if n <= 0 {
        0
    } else {
        known_input_sum(ins, utxos, n - 1) + (if utxos.dom().contains(ins[n - 1].previous_output) {
            utxos[ins[n - 1].previous_output].output.value as nat
        } else {
            0nat
        })
    }
}

/// The value of the first `n` outputs.
pub open spec fn outputs_sum(outs: Seq<TxOutput>, n: int) -> nat
    decreases n,
{
    if n <= 0 {
        0
    } else {
        outputs_sum(outs, n - 1) + (outs[n - 1].value as nat)
    }
}

/// A ticket id as `{:?}` prints a byte array.
pub open spec fn id_text(id: [u8; 32]) -> Seq<char> {
    byte_list(id@)
}

/// Why a transaction is refused, if it is, against the chain's outputs and tickets at
/// `height`, with the clock at `timestamp` and the given ticket maturity and expiry.
pub open spec fn chain_tx_error(
    tx: Transaction,
    utxos: Map<OutPoint, UtxoModel>,
    tickets: Map<[u8; 32], crate::types::TicketModel>,
    maturity: u32,
    expiry: u32,
    height: u64,
    timestamp: u32,
) -> Option<ErrorModel> {
    let ins = tx.spec_inputs();
    let outs = tx.spec_outputs();
    let fee = tx.spec_fee();
    let in_sum = known_input_sum(ins, utxos, ins.len() as int);
    let out_sum = outputs_sum(outs, outs.len() as int);
    let lt = tx.spec_lock_time();
    if tx is Coinbase {
        if ins.len() != 1 || !is_zero_hash(ins[0].previous_output.txid) {
            Some(ErrorModel::InvalidCoinbase("Coinbase transaction must have a single null input"@))
        } else if outs.len() == 0 {
            Some(ErrorModel::InvalidCoinbase("Coinbase transaction must have at least one output"@))
        } else {
            None
        }
    } else if first_spend_error(ins, utxos, height, ins.len() as int) is Some {
        first_spend_error(ins, utxos, height, ins.len() as int)
    } else if !scripts_valid(tx, utxos, height) {
        Some(ErrorModel::InvalidScript("FerrisScript validation failed for transaction"@))
    } else if in_sum < out_sum + fee {
        Some(ErrorModel::InsufficientFee(fee, (if in_sum >= out_sum { in_sum - out_sum } else { 0 }) as u64))
    } else if lt < LOCKTIME_THRESHOLD && lt > height as u32 {
        Some(ErrorModel::InvalidLockTime("Transaction locktime ("@ + decimal(lt as nat)
            + ") is in the future compared to current block height ("@ + decimal(height as nat) + ")"@))
    } else if lt >= LOCKTIME_THRESHOLD && lt > timestamp {
        Some(ErrorModel::InvalidLockTime("Transaction locktime ("@ + decimal(lt as nat)
            + ") is in the future compared to current timestamp ("@ + decimal(timestamp as nat) + ")"@))
    } else {
        match tx {
            Transaction::TicketPurchase { ticket_id, locked_amount, ticket_address, .. } => {
                if outs.len() == 0 {
                    Some(ErrorModel::InvalidTicket("Ticket purchase transaction missing output"@))
                } else if outs[0].value != locked_amount {
                    Some(ErrorModel::InvalidTicket("Ticket purchase output value does not match locked amount"@))
                } else if outs[0].script_pubkey@ != ticket_address@ {
                    Some(ErrorModel::InvalidTicket("Ticket purchase output script_pubkey does not match ticket address"@))
                } else if tickets.dom().contains(ticket_id) {
                    Some(ErrorModel::DuplicateTicketVote("Ticket with ID "@ + id_text(ticket_id) + " already exists in live pool"@))
                } else {
                    None
                }
            },
            Transaction::TicketRedemption { ticket_id, .. } => {
                if !tickets.dom().contains(ticket_id) {
                    Some(ErrorModel::InvalidTicket("Ticket "@ + id_text(ticket_id) + " not found in live pool"@))
                } else if tickets[ticket_id].height + maturity > height {
                    Some(ErrorModel::ImmatureTicket("Ticket "@ + id_text(ticket_id) + " is not yet mature"@))
                } else if tickets[ticket_id].height + expiry <= height {
                    Some(ErrorModel::ExpiredTicket("Ticket "@ + id_text(ticket_id) + " has expired"@))
                } else {
                    None
                }
            },
            _ => None,
        }
    }
}

/// Whether a transaction can be checked without overflow: a coinbase always can; for any
/// other, the sums the fee check computes fit a `u64` (the value the inputs spend, and the
/// value of the outputs with the declared fee) and the script check's bounds hold.
pub open spec fn chain_tx_checkable(tx: Transaction, utxos: Map<OutPoint, UtxoModel>, height: u64) -> bool {
    tx is Coinbase || tx_sums_fit(tx, utxos, height)
}

/// Whether the fee check's sums fit a `u64` and the script check's bounds hold.
pub open spec fn tx_sums_fit(tx: Transaction, utxos: Map<OutPoint, UtxoModel>, height: u64) -> bool {
    let ins = tx.spec_inputs();
    let outs = tx.spec_outputs();
    &&& height_in_bounds(height)
    &&& ins.len() <= MAX_COUNTED_INPUTS
    &&& maturity_defined(ins, utxos, height)
    &&& known_input_sum(ins, utxos, ins.len() as int) <= u64::MAX
    &&& outputs_sum(outs, outs.len() as int) + tx.spec_fee() <= u64::MAX
}

pub proof fn lemma_first_spend_error_rest(ins: Seq<TxInput>, utxos: Map<OutPoint, UtxoModel>, height: u64, k: int, n: int)
    requires
        0 <= k <= n,
        first_spend_error(ins, utxos, height, k) is Some,
    ensures
        first_spend_error(ins, utxos, height, n) == first_spend_error(ins, utxos, height, k),
    decreases n - k,
{
    if k < n {
        lemma_first_spend_error_rest(ins, utxos, height, k, n - 1);
    }
}

pub proof fn lemma_known_input_sum_prefix(ins: Seq<TxInput>, utxos: Map<OutPoint, UtxoModel>, k: int, n: int)
    requires
        0 <= k <= n,
    ensures
        known_input_sum(ins, utxos, k) <= known_input_sum(ins, utxos, n),
    decreases n - k,
{
    if k < n {
        lemma_known_input_sum_prefix(ins, utxos, k, n - 1);
    }
}

pub proof fn lemma_outputs_sum_prefix(outs: Seq<TxOutput>, k: int, n: int)
    requires
        0 <= k <= n,
    ensures
        outputs_sum(outs, k) <= outputs_sum(outs, n),
    decreases n - k,
{
    if k < n {
        lemma_outputs_sum_prefix(outs, k, n - 1);
    }
}

/// Text, a ticket id as `{:?}` prints it, text.
fn ticket_text(a: &str, id: &[u8; 32], b: &str) -> (r: String)
    ensures
        r@ == a@ + id_text(*id) + b@,
{
    let mut s = message(a);
    push_byte_list(&mut s, id.as_slice());
    push_text(&mut s, b);
    s
}

impl Blockchain {
    /// Checks a transaction against the chain at `current_block_height`, with the clock at
    /// `current_timestamp` seconds, as `chain_tx_error` states.
    #[verifier::loop_isolation(false)]
    pub fn validate_transaction(&self, tx: &Transaction, current_block_height: u64, current_timestamp: u32) -> (r: Result<(), ConsensusError>)
        requires
            chain_tx_checkable(*tx, self.utxo_set@, current_block_height),
        ensures
            chain_tx_error(*tx, self.utxo_set@, self.live_tickets@, self.params.ticket_maturity, self.params.ticket_expiry,
                current_block_height, current_timestamp) is None ==> r is Ok,
            chain_tx_error(*tx, self.utxo_set@, self.live_tickets@, self.params.ticket_maturity, self.params.ticket_expiry,
                current_block_height, current_timestamp) matches Some(m) ==> (r matches Err(e) && e@ == m),
    {
        let ghost utxos = self.utxo_set@;
        let inputs = tx.get_inputs();
        let outputs = tx.get_outputs();
        if tx.is_coinbase() {
            if inputs.len() != 1 || !hash_is_zero(&inputs[0].previous_output.txid) {
                return Err(ConsensusError::InvalidCoinbase(message("Coinbase transaction must have a single null input")));
            }
            if outputs.len() == 0 {
                return Err(ConsensusError::InvalidCoinbase(message("Coinbase transaction must have at least one output")));
            }
            return Ok(());
        }
        let mut i: usize = 0;
        while i < inputs.len()
            invariant
                i <= inputs@.len(),
                first_spend_error(inputs@, utxos, current_block_height, i as int) is None,
            decreases inputs@.len() - i,
        {
            let outpoint = inputs[i].previous_output;
            match self.utxo_set.get_utxo(&outpoint) {
                None => {
                    proof {
                        lemma_first_spend_error_rest(inputs@, utxos, current_block_height, i as int + 1, inputs@.len() as int);
                    }
                    return Err(ConsensusError::MissingPreviousOutput(outpoint));
                },
                Some(utxo) => {
                    if utxo.is_coinbase {
                        assert(utxos.dom().contains(inputs@[i as int].previous_output));
                        if current_block_height - utxo.creation_height < COINBASE_MATURITY_PERIOD_BLOCKS {
                            proof {
                                lemma_first_spend_error_rest(inputs@, utxos, current_block_height, i as int + 1, inputs@.len() as int);
                            }
                            let mut m = message("Coinbase UTXO ");
                            let t = format_outpoint(&outpoint);
                            push_text(&mut m, t.as_str());
                            push_text(&mut m, " is not yet mature");
                            return Err(ConsensusError::ImmatureTicket(m));
                        }
                    }
                },
            }
            i = i + 1;
        }
        let mut script_engine = ScriptEngine::new();
        if !script_engine.validate_transaction(tx, &self.utxo_set, current_block_height) {
            return Err(ConsensusError::InvalidScript(message("FerrisScript validation failed for transaction")));
        }
        let mut total_input_value: u64 = 0;
        let mut j: usize = 0;
        while j < inputs.len()
            invariant
                j <= inputs@.len(),
                total_input_value == known_input_sum(inputs@, utxos, j as int),
            decreases inputs@.len() - j,
        {
            proof {
                lemma_known_input_sum_prefix(inputs@, utxos, j as int + 1, inputs@.len() as int);
            }
            match self.utxo_set.get_utxo(&inputs[j].previous_output) {
                Some(u) => {
                    total_input_value = total_input_value + u.output.value;
                },
                None => {},
            }
            j = j + 1;
        }
        let mut total_output_value: u64 = 0;
        let mut k: usize = 0;
        while k < outputs.len()
            invariant
                k <= outputs@.len(),
                total_output_value == outputs_sum(outputs@, k as int),
            decreases outputs@.len() - k,
        {
            proof {
                lemma_outputs_sum_prefix(outputs@, k as int + 1, outputs@.len() as int);
            }
            total_output_value = total_output_value + outputs[k].value;
            k = k + 1;
        }
        let fee = tx.get_fee();
        if total_input_value < total_output_value + fee {
            let available = if total_input_value >= total_output_value { total_input_value - total_output_value } else { 0 };
            return Err(ConsensusError::InsufficientFee(fee, available));
        }
        let lock_time = tx.get_lock_time();
        if lock_time < LOCKTIME_THRESHOLD {
            if lock_time > current_block_height as u32 {
                let mut m = message("Transaction locktime (");
                push_decimal(&mut m, lock_time as u64);
                push_text(&mut m, ") is in the future compared to current block height (");
                push_decimal(&mut m, current_block_height);
                push_text(&mut m, ")");
                return Err(ConsensusError::InvalidLockTime(m));
            }
        } else {
            if lock_time > current_timestamp {
                let mut m = message("Transaction locktime (");
                push_decimal(&mut m, lock_time as u64);
                push_text(&mut m, ") is in the future compared to current timestamp (");
                push_decimal(&mut m, current_timestamp as u64);
                push_text(&mut m, ")");
                return Err(ConsensusError::InvalidLockTime(m));
            }
        }
        match tx {
            Transaction::TicketPurchase { ticket_id, locked_amount, ticket_address, .. } => {
                if outputs.len() == 0 {
                    return Err(ConsensusError::InvalidTicket(message("Ticket purchase transaction missing output")));
                }
                let ticket_output = &outputs[0];
                if ticket_output.value != *locked_amount {
                    return Err(ConsensusError::InvalidTicket(message("Ticket purchase output value does not match locked amount")));
                }
                if !bytes_eq(ticket_output.script_pubkey.as_slice(), ticket_address.as_slice()) {
                    return Err(ConsensusError::InvalidTicket(message(
                        "Ticket purchase output script_pubkey does not match ticket address",
                    )));
                }
                if self.live_tickets.get_ticket(ticket_id).is_some() {
                    return Err(ConsensusError::DuplicateTicketVote(ticket_text("Ticket with ID ", ticket_id, " already exists in live pool")));
                }
            },
            Transaction::TicketRedemption { ticket_id, .. } => {
                let ticket = match self.live_tickets.get_ticket(ticket_id) {
                    Some(t) => t,
                    None => {
                        return Err(ConsensusError::InvalidTicket(ticket_text("Ticket ", ticket_id, " not found in live pool")));
                    },
                };
                if (ticket.height as u128) + (self.params.ticket_maturity as u128) > current_block_height as u128 {
                    return Err(ConsensusError::ImmatureTicket(ticket_text("Ticket ", ticket_id, " is not yet mature")));
                }
                if (ticket.height as u128) + (self.params.ticket_expiry as u128) <= current_block_height as u128 {
                    return Err(ConsensusError::ExpiredTicket(ticket_text("Ticket ", ticket_id, " has expired")));
                }
            },
            _ => {},
        }
        Ok(())
    }
}

/// A ticket id as `{:?}` prints the ticket-id wrapper the votes name.
pub open spec fn ticket_id_text(id: [u8; 32]) -> Seq<char> {
    "TicketId("@ + byte_list(id@) + ")"@
}

/// A ticket status as `{:?}` prints it.
pub open spec fn status_text(s: TicketStatus) -> Seq<char> {
    match s {
        TicketStatus::Pending => "Pending"@,
        TicketStatus::Live => "Live"@,
        TicketStatus::Voted => "Voted"@,
        TicketStatus::Expired => "Expired"@,
        TicketStatus::Revoked => "Revoked"@,
    }
}

/// A vote names a non-zero ticket and carries a 64-byte signature.
pub open spec fn vote_shape_ok(v: TicketVote) -> bool {
    !is_zero_hash(v.ticket_id) && v.signature@.len() == 64
}

/// The text of an error from decoding a key or a signature.
pub open spec fn signature_error_text() -> Seq<char> {
    "Signature validation error: signature::Error { source: None }"@
}

/// The votes a stake block must carry.
pub const POS_VOTERS_PER_BLOCK: usize = 5;

/// Why a stake vote is refused, if it is, given the votes before it in the block, the
/// selected voters, the live tickets and the block's previous hash and height.
pub open spec fn pos_vote_error(
    v: TicketVote,
    earlier: Seq<TicketVote>,
    selected: Seq<[u8; 32]>,
    tickets: Map<[u8; 32], TicketModel>,
    prev: [u8; 32],
    height: u64,
    expiry: u32,
) -> Option<ErrorModel> {
    let id = v.ticket_id;
    let tid = ticket_id_text(id);
    if exists|j: int| 0 <= j < earlier.len() && (#[trigger] earlier[j]).ticket_id == id {
        Some(ErrorModel::InvalidTicketVote("Duplicate ticket vote in block"@))
    } else if !selected.contains(id) {
        Some(ErrorModel::InvalidTicketVote("Ticket "@ + tid + " was not selected for voting on block "@ + byte_list(prev@)))
    } else if !tickets.dom().contains(id) {
        Some(ErrorModel::InvalidTicket("Voted ticket "@ + tid + " not found in live pool"@))
    } else if tickets[id].status != TicketStatus::Live {
        Some(ErrorModel::InvalidTicket("Ticket "@ + tid + " is not live (status: "@ + status_text(tickets[id].status) + ")"@))
    } else if height >= tickets[id].height + expiry {
        Some(ErrorModel::ExpiredTicket("Ticket "@ + tid + " has expired"@))
    } else if v.block_hash != prev {
        Some(ErrorModel::InvalidTicketVote("Vote block_hash mismatch: expected "@ + byte_list(prev@) + ", got "@ + byte_list(v.block_hash@)))
    } else if !(tickets[id].pubkey.len() == 32 && ed25519_point_decompresses(tickets[id].pubkey)) || !signature_decodes(v.signature@) {
        Some(ErrorModel::InvalidSignature(signature_error_text()))
    } else if !ed25519_verifies(tickets[id].pubkey, v.block_hash@, v.signature@) {
        Some(ErrorModel::InvalidSignature("Invalid signature for ticket "@ + tid))
    } else if v.vote > 2 {
        Some(ErrorModel::InvalidTicketVote("Invalid vote type "@ + decimal(v.vote as nat) + " for ticket "@ + tid))
    } else {
        None
    }
}

/// The error of the first of the first `n` votes that is refused, if any.
pub open spec fn first_pos_vote_error(
    votes: Seq<TicketVote>,
    selected: Seq<[u8; 32]>,
    tickets: Map<[u8; 32], TicketModel>,
    prev: [u8; 32],
    height: u64,
    expiry: u32,
    n: int,
) -> Option<ErrorModel>
    decreases n,
{
    if n <= 0 {
        None
    } else {
        match first_pos_vote_error(votes, selected, tickets, prev, height, expiry, n - 1) {
            Some(e) => Some(e),
            None => pos_vote_error(votes[n - 1], votes.take(n - 1), selected, tickets, prev, height, expiry),
        }
    }
}

/// Why the stake part of a block is refused, if it is, given the selected voters: a stake
/// block (one with votes) carries exactly five, each of them valid, and its reward leaves
/// each voter something.
pub open spec fn pos_block_error(block: Block, selected: Seq<[u8; 32]>, tickets: Map<[u8; 32], TicketModel>, expiry: u32, total_reward: u64) -> Option<ErrorModel> {
    let votes = block.ticket_votes@;
    let prev = block.header.previous_block_hash;
    if votes.len() == 0 {
        None
    } else if votes.len() != POS_VOTERS_PER_BLOCK {
        Some(ErrorModel::InvalidTicketVote("PoS block must contain exactly 5 ticket votes, found "@ + decimal(votes.len())))
    } else if first_pos_vote_error(votes, selected, tickets, prev, block.header.height, expiry, 5) is Some {
        first_pos_vote_error(votes, selected, tickets, prev, block.header.height, expiry, 5)
    } else if total_reward > 0 && total_reward / 5 == 0 {
        Some(ErrorModel::RuleViolation("Reward per voter would be zero"@))
    } else {
        None
    }
}

pub proof fn lemma_first_pos_vote_error_rest(
    votes: Seq<TicketVote>,
    selected: Seq<[u8; 32]>,
    tickets: Map<[u8; 32], TicketModel>,
    prev: [u8; 32],
    height: u64,
    expiry: u32,
    k: int,
    n: int,
)
    requires
        0 <= k <= n,
        first_pos_vote_error(votes, selected, tickets, prev, height, expiry, k) is Some,
    ensures
        first_pos_vote_error(votes, selected, tickets, prev, height, expiry, n) == first_pos_vote_error(votes, selected, tickets, prev, height, expiry, k),
    decreases n - k,
{
    if k < n {
        lemma_first_pos_vote_error_rest(votes, selected, tickets, prev, height, expiry, k, n - 1);
    }
}

/// Text, a ticket id as the votes' wrapper prints, text.
fn ticket_id_message(a: &str, id: &[u8; 32], b: &str) -> (r: String)
    ensures
        r@ == a@ + ticket_id_text(*id) + b@,
{
    proof {
        reveal_strlit("TicketId(");
        reveal_strlit(")");
    }
    let mut s = message(a);
    push_text(&mut s, "TicketId(");
    push_byte_list(&mut s, id.as_slice());
    push_text(&mut s, ")");
    push_text(&mut s, b);
    assert(s@ =~= a@ + ticket_id_text(*id) + b@);
    s
}

/// A ticket status as `{:?}` prints it.
fn format_status(status: TicketStatus) -> (r: String)
    ensures
        r@ == status_text(status),
{
    match status {
        TicketStatus::Pending => message("Pending"),
        TicketStatus::Live => message("Live"),
        TicketStatus::Voted => message("Voted"),
        TicketStatus::Expired => message("Expired"),
        TicketStatus::Revoked => message("Revoked"),
    }
}

impl Blockchain {
    /// Checks the stake votes of a block and that its stake reward can be shared among its
    /// voters, as `pos_block_error` states for the voters the lottery selects.
    pub fn validate_proof_of_stake_and_rewards(&self, block: &Block, total_reward: u64) -> (r: Result<(), ConsensusError>)
        ensures
            exists|sel: Seq<[u8; 32]>| #[trigger] voters_selected(self.live_tickets@.dom(), block.header.previous_block_hash, sel) && {
                &&& pos_block_error(*block, sel, self.live_tickets@, self.params.ticket_expiry, total_reward) is None ==> r is Ok
                &&& pos_block_error(*block, sel, self.live_tickets@, self.params.ticket_expiry, total_reward) matches Some(m)
                    ==> (r matches Err(e) && e@ == m)
            },
    {
        let expected_voters = select_voters(&block.header.previous_block_hash, &self.live_tickets);
        let ghost sel = expected_voters@;
        let ghost tickets = self.live_tickets@;
        let ghost votes = block.ticket_votes@;
        let ghost prev = block.header.previous_block_hash;
        let ghost expiry = self.params.ticket_expiry;
        if block.ticket_votes.len() == 0 {
            return Ok(());
        }
        if block.ticket_votes.len() != POS_VOTERS_PER_BLOCK {
            let mut m = message("PoS block must contain exactly 5 ticket votes, found ");
            push_decimal(&mut m, block.ticket_votes.len() as u64);
            return Err(ConsensusError::InvalidTicketVote(m));
        }
        let mut valid_votes: usize = 0;
        let mut i: usize = 0;
        while i < block.ticket_votes.len()
            invariant
                votes == block.ticket_votes@,
                votes.len() == 5,
                sel == expected_voters@,
                voters_selected(self.live_tickets@.dom(), block.header.previous_block_hash, sel),
                tickets == self.live_tickets@,
                prev == block.header.previous_block_hash,
                expiry == self.params.ticket_expiry,
                i <= 5,
                valid_votes == i,
                first_pos_vote_error(votes, sel, tickets, prev, block.header.height, expiry, i as int) is None,
            decreases 5 - i,
        {
            let vote = &block.ticket_votes[i];
            let ticket_id = vote.ticket_id;
            let ghost err = pos_vote_error(*vote, votes.take(i as int), sel, tickets, prev, block.header.height, expiry);
            proof {
                assert(votes[i as int] == *vote);
            }
            let mut seen = false;
            let mut j: usize = 0;
            while j < i
                invariant
                    votes == block.ticket_votes@,
                    i < votes.len(),
                    j <= i,
                    seen == exists|q: int| 0 <= q < j && (#[trigger] votes[q]).ticket_id == ticket_id,
                decreases i - j,
            {
                if hash_eq(&block.ticket_votes[j].ticket_id, &ticket_id) {
                    seen = true;
                }
                j = j + 1;
            }
            proof {
                assert(seen == exists|q: int| 0 <= q < votes.take(i as int).len() && (#[trigger] votes.take(i as int)[q]).ticket_id == ticket_id) by {
                    if seen {
                        let q = choose|q: int| 0 <= q < i && (#[trigger] votes[q]).ticket_id == ticket_id;
                        assert(votes.take(i as int)[q] == votes[q]);
                    }
                    if exists|q: int| 0 <= q < votes.take(i as int).len() && (#[trigger] votes.take(i as int)[q]).ticket_id == ticket_id {
                        let q = choose|q: int| 0 <= q < votes.take(i as int).len() && (#[trigger] votes.take(i as int)[q]).ticket_id == ticket_id;
                        assert(votes.take(i as int)[q] == votes[q]);
                    }
                }
            }
            let mut selected = false;
            let mut k: usize = 0;
            while k < expected_voters.len()
                invariant
                    k <= expected_voters@.len(),
                    selected == exists|q: int| 0 <= q < k && expected_voters@[q] == ticket_id,
                decreases expected_voters@.len() - k,
            {
                if hash_eq(&expected_voters[k], &ticket_id) {
                    selected = true;
                }
                k = k + 1;
            }
            let result: Result<(), ConsensusError> = if seen {
                Err(ConsensusError::InvalidTicketVote(message("Duplicate ticket vote in block")))
            } else if !selected {
                let mut m = ticket_id_message("Ticket ", &ticket_id, " was not selected for voting on block ");
                push_byte_list(&mut m, block.header.previous_block_hash.as_slice());
                assert(m@ =~= "Ticket "@ + ticket_id_text(ticket_id) + " was not selected for voting on block "@ + byte_list(prev@));
                Err(ConsensusError::InvalidTicketVote(m))
            } else {
                match self.live_tickets.get_ticket(&ticket_id) {
                    None => Err(ConsensusError::InvalidTicket(ticket_id_message("Voted ticket ", &ticket_id, " not found in live pool"))),
                    Some(ticket) => {
                        let is_live = match ticket.status {
                            TicketStatus::Live => true,
                            _ => false,
                        };
                        if !is_live {
                            let mut m = ticket_id_message("Ticket ", &ticket_id, " is not live (status: ");
                            let st = format_status(ticket.status);
                            push_text(&mut m, st.as_str());
                            push_text(&mut m, ")");
                            proof {
                                reveal_strlit(")");
                            }
                            assert(m@ =~= "Ticket "@ + ticket_id_text(ticket_id) + " is not live (status: "@ + status_text(ticket.status) + ")"@);
                            Err(ConsensusError::InvalidTicket(m))
                        } else if block.header.height as u128 >= (ticket.height as u128) + (self.params.ticket_expiry as u128) {
                            Err(ConsensusError::ExpiredTicket(ticket_id_message("Ticket ", &ticket_id, " has expired")))
                        } else if !hash_eq(&vote.block_hash, &block.header.previous_block_hash) {
                            let mut m = message("Vote block_hash mismatch: expected ");
                            push_byte_list(&mut m, block.header.previous_block_hash.as_slice());
                            push_text(&mut m, ", got ");
                            push_byte_list(&mut m, vote.block_hash.as_slice());
                            assert(m@ =~= "Vote block_hash mismatch: expected "@ + byte_list(prev@) + ", got "@ + byte_list(vote.block_hash@));
                            Err(ConsensusError::InvalidTicketVote(m))
                        } else {
                            match validate_ticket_signature(ticket.pubkey.as_slice(), vote.block_hash.as_slice(), vote.signature.as_slice()) {
                                Err(_) => Err(ConsensusError::InvalidSignature(message("Signature validation error: signature::Error { source: None }"))),
                                Ok(false) => {
                                    let m = ticket_id_message("Invalid signature for ticket ", &ticket_id, "");
                                    proof {
                                        reveal_strlit("");
                                    }
                                    assert(m@ =~= "Invalid signature for ticket "@ + ticket_id_text(ticket_id));
                                    Err(ConsensusError::InvalidSignature(m))
                                },
                                Ok(true) => {
                                    if vote.vote > 2 {
                                        let mut m = message("Invalid vote type ");
                                        push_decimal(&mut m, vote.vote as u64);
                                        let tail = ticket_id_message(" for ticket ", &ticket_id, "");
                                        push_text(&mut m, tail.as_str());
                                        proof {
                                            reveal_strlit("");
                                        }
                                        assert(m@ =~= "Invalid vote type "@ + decimal(vote.vote as nat) + " for ticket "@ + ticket_id_text(ticket_id));
                                        Err(ConsensusError::InvalidTicketVote(m))
                                    } else {
                                        Ok(())
                                    }
                                },
                            }
                        }
                    },
                }
            };
            proof {
                reveal_strlit("");
                reveal_strlit(")");
                assert(selected == sel.contains(ticket_id));
            }
            match result {
                Err(e) => {
                    proof {
                        assert(err is Some);
                        assert(e@ == err->0);
                        lemma_first_pos_vote_error_rest(votes, sel, tickets, prev, block.header.height, expiry, i as int + 1, 5);
                    }
                    return Err(e);
                },
                Ok(()) => {
                    assert(err is None);
                },
            }
            valid_votes = valid_votes + 1;
            i = i + 1;
        }
        if valid_votes < 3 {
            return Err(ConsensusError::InsufficientTicketVotes);
        }
        if total_reward > 0 && valid_votes > 0 {
            let reward_per_voter = total_reward / (valid_votes as u64);
            if reward_per_voter == 0 {
                return Err(ConsensusError::RuleViolation(message("Reward per voter would be zero")));
            }
        }
        Ok(())
    }
}

/// The type a changeable parameter holds.
#[derive(Debug, Clone, Copy, PartialEq, Eq)]
pub enum ParamType {
    U64,
    U32,
    Usize,
    /// A floating-point parameter, which this library does not hold.
    Float,
    /// No parameter of that name.
    Unknown,
}

/// What a parameter change came to.
#[derive(Debug, Clone, Copy, PartialEq, Eq)]
pub enum ParameterChange {
    /// The parameter was set.
    Applied,
    /// The parameter holds a floating-point number, which is left to the caller.
    FloatParameter,
    /// No parameter has that name; the change is ignored.
    UnknownParameter,
}

/// The type of the parameter a name denotes.
pub open spec fn param_type(name: Seq<char>) -> ParamType {
    if name == "min_stake"@ {
        ParamType::U64
    } else if name == "max_tickets_per_stake"@ {
        ParamType::U32
    } else if name == "ticket_price"@ {
        ParamType::U64
    } else if name == "ticket_maturity"@ {
        ParamType::U32
    } else if name == "ticket_expiry"@ {
        ParamType::U32
    } else if name == "min_block_time"@ {
        ParamType::U64
    } else if name == "reward_amount"@ {
        ParamType::U64
    } else if name == "target_live_tickets"@ {
        ParamType::U64
    } else if name == "difficulty_adjustment_window"@ {
        ParamType::U32
    } else if name == "halving_interval"@ {
        ParamType::U64
    } else if name == "initial_block_reward"@ {
        ParamType::U64
    } else if name == "ticket_price_adjustment_period"@ {
        ParamType::U64
    } else if name == "max_ticket_price"@ {
        ParamType::U64
    } else if name == "min_ticket_price"@ {
        ParamType::U64
    } else if name == "proposal_stake_amount"@ {
        ParamType::U64
    } else if name == "voting_period_blocks"@ {
        ParamType::U64
    } else if name == "activation_delay_blocks"@ {
        ParamType::U64
    } else if name == "grace_period_blocks"@ {
        ParamType::U64
    } else if name == "slash_forgiveness_period"@ {
        ParamType::U64
    } else if name == "pose_challenge_period_blocks"@ {
        ParamType::U64
    } else if name == "num_pose_challengers"@ {
        ParamType::U32
    } else if name == "num_pose_targets_per_period"@ {
        ParamType::U32
    } else if name == "pose_response_timeout_seconds"@ {
        ParamType::U64
    } else if name == "max_pose_failures"@ {
        ParamType::U32
    } else if name == "reset_failures_period"@ {
        ParamType::U32
    } else if name == "min_witness_signatures"@ {
        ParamType::U32
    } else if name == "pos_finality_depth"@ {
        ParamType::U32
    } else if name == "max_block_size"@ {
        ParamType::U64
    } else if name == "max_tx_size"@ {
        ParamType::Usize
    } else if name == "block_reward"@ {
        ParamType::U64
    } else if name == "coinbase_maturity"@ {
        ParamType::U32
    } else if name == "dust_limit"@ {
        ParamType::U64
    } else if name == "min_relay_tx_fee"@ {
        ParamType::U64
    } else if name == "masternode_collateral_amount"@ {
        ParamType::U64
    } else if name == "max_inactivity_blocks"@ {
        ParamType::U32
    } else if name == "price_adjustment_factor"@ {
        ParamType::Float
    } else if name == "pos_reward_ratio"@ {
        ParamType::Float
    } else if name == "pos_voting_quorum_percentage"@ {
        ParamType::Float
    } else if name == "mn_voting_quorum_percentage"@ {
        ParamType::Float
    } else if name == "pos_approval_percentage"@ {
        ParamType::Float
    } else if name == "mn_approval_percentage"@ {
        ParamType::Float
    } else if name == "malicious_behavior_slash_percentage"@ {
        ParamType::Float
    } else if name == "protocol_upgrade_approval_percentage"@ {
        ParamType::Float
    } else if name == "parameter_change_approval_percentage"@ {
        ParamType::Float
    } else if name == "treasury_spend_approval_percentage"@ {
        ParamType::Float
    } else if name == "bug_fix_approval_percentage"@ {
        ParamType::Float
    } else if name == "community_fund_approval_percentage"@ {
        ParamType::Float
    } else if name == "tickets_per_round"@ {
        ParamType::Usize
    } else {
        ParamType::Unknown
    }
}

/// The largest value a parameter type holds.
pub open spec fn param_type_max(t: ParamType) -> nat {
    match t {
        ParamType::U64 => u64::MAX as nat,
        ParamType::U32 => u32::MAX as nat,
        ParamType::Usize => usize::MAX as nat,
        _ => 0,
    }
}

/// The name of a parameter type, as the error text writes it.
pub open spec fn param_type_word(t: ParamType) -> Seq<char> {
    match t {
        ParamType::U64 => "u64"@,
        ParamType::U32 => "u32"@,
        ParamType::Usize => "usize"@,
        _ => "f64"@,
    }
}

/// The parameters with the integer parameter of the given name set to `v`.
pub open spec fn with_param(p: ConsensusParams, name: Seq<char>, v: nat) -> ConsensusParams {
    if name == "min_stake"@ {
        ConsensusParams { min_stake: v as u64, ..p }
    } else if name == "max_tickets_per_stake"@ {
        ConsensusParams { max_tickets_per_stake: v as u32, ..p }
    } else if name == "ticket_price"@ {
        ConsensusParams { ticket_price: v as u64, ..p }
    } else if name == "ticket_maturity"@ {
        ConsensusParams { ticket_maturity: v as u32, ..p }
    } else if name == "ticket_expiry"@ {
        ConsensusParams { ticket_expiry: v as u32, ..p }
    } else if name == "min_block_time"@ {
        ConsensusParams { min_block_time: v as u64, ..p }
    } else if name == "reward_amount"@ {
        ConsensusParams { reward_amount: v as u64, ..p }
    } else if name == "target_live_tickets"@ {
        ConsensusParams { target_live_tickets: v as u64, ..p }
    } else if name == "difficulty_adjustment_window"@ {
        ConsensusParams { difficulty_adjustment_window: v as u32, ..p }
    } else if name == "halving_interval"@ {
        ConsensusParams { halving_interval: v as u64, ..p }
    } else if name == "initial_block_reward"@ {
        ConsensusParams { initial_block_reward: v as u64, ..p }
    } else if name == "ticket_price_adjustment_period"@ {
        ConsensusParams { ticket_price_adjustment_period: v as u64, ..p }
    } else if name == "max_ticket_price"@ {
        ConsensusParams { max_ticket_price: v as u64, ..p }
    } else if name == "min_ticket_price"@ {
        ConsensusParams { min_ticket_price: v as u64, ..p }
    } else if name == "proposal_stake_amount"@ {
        ConsensusParams { proposal_stake_amount: v as u64, ..p }
    } else if name == "voting_period_blocks"@ {
        ConsensusParams { voting_period_blocks: v as u64, ..p }
    } else if name == "activation_delay_blocks"@ {
        ConsensusParams { activation_delay_blocks: v as u64, ..p }
    } else if name == "grace_period_blocks"@ {
        ConsensusParams { grace_period_blocks: v as u64, ..p }
    } else if name == "slash_forgiveness_period"@ {
        ConsensusParams { slash_forgiveness_period: v as u64, ..p }
    } else if name == "pose_challenge_period_blocks"@ {
        ConsensusParams { pose_challenge_period_blocks: v as u64, ..p }
    } else if name == "num_pose_challengers"@ {
        ConsensusParams { num_pose_challengers: v as u32, ..p }
    } else if name == "num_pose_targets_per_period"@ {
        ConsensusParams { num_pose_targets_per_period: v as u32, ..p }
    } else if name == "pose_response_timeout_seconds"@ {
        ConsensusParams { pose_response_timeout_seconds: v as u64, ..p }
    } else if name == "max_pose_failures"@ {
        ConsensusParams { max_pose_failures: v as u32, ..p }
    } else if name == "reset_failures_period"@ {
        ConsensusParams { reset_failures_period: v as u32, ..p }
    } else if name == "min_witness_signatures"@ {
        ConsensusParams { min_witness_signatures: v as u32, ..p }
    } else if name == "pos_finality_depth"@ {
        ConsensusParams { pos_finality_depth: v as u32, ..p }
    } else if name == "max_block_size"@ {
        ConsensusParams { max_block_size: v as u64, ..p }
    } else if name == "max_tx_size"@ {
        ConsensusParams { max_tx_size: v as usize, ..p }
    } else if name == "block_reward"@ {
        ConsensusParams { block_reward: v as u64, ..p }
    } else if name == "coinbase_maturity"@ {
        ConsensusParams { coinbase_maturity: v as u32, ..p }
    } else if name == "dust_limit"@ {
        ConsensusParams { dust_limit: v as u64, ..p }
    } else if name == "min_relay_tx_fee"@ {
        ConsensusParams { min_relay_tx_fee: v as u64, ..p }
    } else if name == "masternode_collateral_amount"@ {
        ConsensusParams { masternode_collateral_amount: v as u64, ..p }
    } else if name == "max_inactivity_blocks"@ {
        ConsensusParams { max_inactivity_blocks: v as u32, ..p }
    } else if name == "tickets_per_round"@ {
        ConsensusParams { tickets_per_round: v as usize, ..p }
    } else {
        p
    }
}

/// The type of the parameter a name denotes, as `param_type` states.
pub fn parameter_type(name: &str) -> (r: ParamType)
    ensures
        r == param_type(name@),
{
    if str_eq(name, "min_stake") {
        ParamType::U64
    } else if str_eq(name, "max_tickets_per_stake") {
        ParamType::U32
    } else if str_eq(name, "ticket_price") {
        ParamType::U64
    } else if str_eq(name, "ticket_maturity") {
        ParamType::U32
    } else if str_eq(name, "ticket_expiry") {
        ParamType::U32
    } else if str_eq(name, "min_block_time") {
        ParamType::U64
    } else if str_eq(name, "reward_amount") {
        ParamType::U64
    } else if str_eq(name, "target_live_tickets") {
        ParamType::U64
    } else if str_eq(name, "difficulty_adjustment_window") {
        ParamType::U32
    } else if str_eq(name, "halving_interval") {
        ParamType::U64
    } else if str_eq(name, "initial_block_reward") {
        ParamType::U64
    } else if str_eq(name, "ticket_price_adjustment_period") {
        ParamType::U64
    } else if str_eq(name, "max_ticket_price") {
        ParamType::U64
    } else if str_eq(name, "min_ticket_price") {
        ParamType::U64
    } else if str_eq(name, "proposal_stake_amount") {
        ParamType::U64
    } else if str_eq(name, "voting_period_blocks") {
        ParamType::U64
    } else if str_eq(name, "activation_delay_blocks") {
        ParamType::U64
    } else if str_eq(name, "grace_period_blocks") {
        ParamType::U64
    } else if str_eq(name, "slash_forgiveness_period") {
        ParamType::U64
    } else if str_eq(name, "pose_challenge_period_blocks") {
        ParamType::U64
    } else if str_eq(name, "num_pose_challengers") {
        ParamType::U32
    } else if str_eq(name, "num_pose_targets_per_period") {
        ParamType::U32
    } else if str_eq(name, "pose_response_timeout_seconds") {
        ParamType::U64
    } else if str_eq(name, "max_pose_failures") {
        ParamType::U32
    } else if str_eq(name, "reset_failures_period") {
        ParamType::U32
    } else if str_eq(name, "min_witness_signatures") {
        ParamType::U32
    } else if str_eq(name, "pos_finality_depth") {
        ParamType::U32
    } else if str_eq(name, "max_block_size") {
        ParamType::U64
    } else if str_eq(name, "max_tx_size") {
        ParamType::Usize
    } else if str_eq(name, "block_reward") {
        ParamType::U64
    } else if str_eq(name, "coinbase_maturity") {
        ParamType::U32
    } else if str_eq(name, "dust_limit") {
        ParamType::U64
    } else if str_eq(name, "min_relay_tx_fee") {
        ParamType::U64
    } else if str_eq(name, "masternode_collateral_amount") {
        ParamType::U64
    } else if str_eq(name, "max_inactivity_blocks") {
        ParamType::U32
    } else if str_eq(name, "price_adjustment_factor") {
        ParamType::Float
    } else if str_eq(name, "pos_reward_ratio") {
        ParamType::Float
    } else if str_eq(name, "pos_voting_quorum_percentage") {
        ParamType::Float
    } else if str_eq(name, "mn_voting_quorum_percentage") {
        ParamType::Float
    } else if str_eq(name, "pos_approval_percentage") {
        ParamType::Float
    } else if str_eq(name, "mn_approval_percentage") {
        ParamType::Float
    } else if str_eq(name, "malicious_behavior_slash_percentage") {
        ParamType::Float
    } else if str_eq(name, "protocol_upgrade_approval_percentage") {
        ParamType::Float
    } else if str_eq(name, "parameter_change_approval_percentage") {
        ParamType::Float
    } else if str_eq(name, "treasury_spend_approval_percentage") {
        ParamType::Float
    } else if str_eq(name, "bug_fix_approval_percentage") {
        ParamType::Float
    } else if str_eq(name, "community_fund_approval_percentage") {
        ParamType::Float
    } else if str_eq(name, "tickets_per_round") {
        ParamType::Usize
    } else {
        ParamType::Unknown
    }
}

/// Sets the integer parameter of the given name.
fn set_param(params: &mut ConsensusParams, name: &str, v: u64)
    requires
        param_type(name@) is U64 || param_type(name@) is U32 || param_type(name@) is Usize,
        v <= param_type_max(param_type(name@)),
    ensures
        *final(params) == with_param(*old(params), name@, v as nat),
{
    if str_eq(name, "min_stake") {
        params.min_stake = v;
    } else if str_eq(name, "max_tickets_per_stake") {
        params.max_tickets_per_stake = v as u32;
    } else if str_eq(name, "ticket_price") {
        params.ticket_price = v;
    } else if str_eq(name, "ticket_maturity") {
        params.ticket_maturity = v as u32;
    } else if str_eq(name, "ticket_expiry") {
        params.ticket_expiry = v as u32;
    } else if str_eq(name, "min_block_time") {
        params.min_block_time = v;
    } else if str_eq(name, "reward_amount") {
        params.reward_amount = v;
    } else if str_eq(name, "target_live_tickets") {
        params.target_live_tickets = v;
    } else if str_eq(name, "difficulty_adjustment_window") {
        params.difficulty_adjustment_window = v as u32;
    } else if str_eq(name, "halving_interval") {
        params.halving_interval = v;
    } else if str_eq(name, "initial_block_reward") {
        params.initial_block_reward = v;
    } else if str_eq(name, "ticket_price_adjustment_period") {
        params.ticket_price_adjustment_period = v;
    } else if str_eq(name, "max_ticket_price") {
        params.max_ticket_price = v;
    } else if str_eq(name, "min_ticket_price") {
        params.min_ticket_price = v;
    } else if str_eq(name, "proposal_stake_amount") {
        params.proposal_stake_amount = v;
    } else if str_eq(name, "voting_period_blocks") {
        params.voting_period_blocks = v;
    } else if str_eq(name, "activation_delay_blocks") {
        params.activation_delay_blocks = v;
    } else if str_eq(name, "grace_period_blocks") {
        params.grace_period_blocks = v;
    } else if str_eq(name, "slash_forgiveness_period") {
        params.slash_forgiveness_period = v;
    } else if str_eq(name, "pose_challenge_period_blocks") {
        params.pose_challenge_period_blocks = v;
    } else if str_eq(name, "num_pose_challengers") {
        params.num_pose_challengers = v as u32;
    } else if str_eq(name, "num_pose_targets_per_period") {
        params.num_pose_targets_per_period = v as u32;
    } else if str_eq(name, "pose_response_timeout_seconds") {
        params.pose_response_timeout_seconds = v;
    } else if str_eq(name, "max_pose_failures") {
        params.max_pose_failures = v as u32;
    } else if str_eq(name, "reset_failures_period") {
        params.reset_failures_period = v as u32;
    } else if str_eq(name, "min_witness_signatures") {
        params.min_witness_signatures = v as u32;
    } else if str_eq(name, "pos_finality_depth") {
        params.pos_finality_depth = v as u32;
    } else if str_eq(name, "max_block_size") {
        params.max_block_size = v;
    } else if str_eq(name, "max_tx_size") {
        params.max_tx_size = v as usize;
    } else if str_eq(name, "block_reward") {
        params.block_reward = v;
    } else if str_eq(name, "coinbase_maturity") {
        params.coinbase_maturity = v as u32;
    } else if str_eq(name, "dust_limit") {
        params.dust_limit = v;
    } else if str_eq(name, "min_relay_tx_fee") {
        params.min_relay_tx_fee = v;
    } else if str_eq(name, "masternode_collateral_amount") {
        params.masternode_collateral_amount = v;
    } else if str_eq(name, "max_inactivity_blocks") {
        params.max_inactivity_blocks = v as u32;
    } else if str_eq(name, "price_adjustment_factor") {
    } else if str_eq(name, "pos_reward_ratio") {
    } else if str_eq(name, "pos_voting_quorum_percentage") {
    } else if str_eq(name, "mn_voting_quorum_percentage") {
    } else if str_eq(name, "pos_approval_percentage") {
    } else if str_eq(name, "mn_approval_percentage") {
    } else if str_eq(name, "malicious_behavior_slash_percentage") {
    } else if str_eq(name, "protocol_upgrade_approval_percentage") {
    } else if str_eq(name, "parameter_change_approval_percentage") {
    } else if str_eq(name, "treasury_spend_approval_percentage") {
    } else if str_eq(name, "bug_fix_approval_percentage") {
    } else if str_eq(name, "community_fund_approval_percentage") {
    } else if str_eq(name, "tickets_per_round") {
        params.tickets_per_round = v as usize;
    }
}

/// The error of a value refused for a parameter of type `t`.
pub open spec fn invalid_value(t: ParamType, name: Seq<char>, value: Seq<char>) -> ErrorModel {
    ErrorModel::RuleViolation("Invalid "@ + param_type_word(t) + " value for "@ + name + ": "@ + value)
}

/// What setting the parameter `name` from the text `value` comes to, from the parameters
/// `p`: the parameters after it and the error, if any. An integer parameter is set when the
/// text is a number within its type; a floating-point parameter's text must read as an
/// `f64`, and its value is left to the caller; an unknown name is ignored.
pub open spec fn parameter_change(p: ConsensusParams, name: Seq<char>, value: Seq<char>) -> (ConsensusParams, Option<ErrorModel>) {
    let t = param_type(name);
    match t {
        ParamType::Unknown => (p, None),
        ParamType::Float => if f64_syntax(value) { (p, None) } else { (p, Some(invalid_value(t, name, value))) },
        _ => match parsed_unsigned(value) {
            Some(n) => if n <= param_type_max(t) { (with_param(p, name, n), None) } else { (p, Some(invalid_value(t, name, value))) },
            None => (p, Some(invalid_value(t, name, value))),
        },
    }
}

impl Blockchain {
    /// Sets a chain parameter from its text, as governance decides, as `parameter_change`
    /// states; what it reports of a change that succeeds follows the parameter's type.
    pub fn apply_parameter_change(&mut self, param_name: &str, new_value_str: &str) -> (r: Result<ParameterChange, ConsensusError>)
        ensures
            final(self).tip == old(self).tip,
            final(self).live_tickets == old(self).live_tickets,
            final(self).utxo_set == old(self).utxo_set,
            final(self).masternode_list == old(self).masternode_list,
            final(self).active_proposals == old(self).active_proposals,
            final(self).state == old(self).state,
            ({
                let (p, err) = parameter_change(old(self).params, param_name@, new_value_str@);
                &&& final(self).params == p
                &&& err matches Some(m) ==> (r matches Err(e) && e@ == m)
                &&& err is None ==> r == Ok::<ParameterChange, ConsensusError>(match param_type(param_name@) {
                    ParamType::Float => ParameterChange::FloatParameter,
                    ParamType::Unknown => ParameterChange::UnknownParameter,
                    _ => ParameterChange::Applied,
                })
            }),
    {
        let kind = parameter_type(param_name);
        let max: u64 = match kind {
            ParamType::Float => {
                if is_f64_text(new_value_str) {
                    return Ok(ParameterChange::FloatParameter);
                }
                let mut m = message("Invalid f64 value for ");
                push_text(&mut m, param_name);
                push_text(&mut m, ": ");
                push_text(&mut m, new_value_str);
                proof {
                    reveal_strlit("Invalid f64 value for ");
                    reveal_strlit("Invalid ");
                    reveal_strlit("f64");
                    reveal_strlit(" value for ");
                }
                assert(m@ =~= "Invalid "@ + param_type_word(kind) + " value for "@ + param_name@ + ": "@ + new_value_str@);
                return Err(ConsensusError::RuleViolation(m));
            },
            ParamType::Unknown => {
                return Ok(ParameterChange::UnknownParameter);
            },
            ParamType::U64 => u64::MAX,
            ParamType::U32 => u32::MAX as u64,
            ParamType::Usize => usize::MAX as u64,
        };
        match parse_unsigned(new_value_str, max) {
            Some(v) => {
                set_param(&mut self.params, param_name, v);
                Ok(ParameterChange::Applied)
            },
            None => {
                let word = match kind {
                    ParamType::U64 => "u64",
                    ParamType::U32 => "u32",
                    _ => "usize",
                };
                proof {
                    reveal_strlit("u64");
                    reveal_strlit("u32");
                    reveal_strlit("usize");
                }
                let mut m = message("Invalid ");
                push_text(&mut m, word);
                push_text(&mut m, " value for ");
                push_text(&mut m, param_name);
                push_text(&mut m, ": ");
                push_text(&mut m, new_value_str);
                assert(word@ == param_type_word(kind));
                assert(m@ =~= "Invalid "@ + param_type_word(kind) + " value for "@ + param_name@ + ": "@ + new_value_str@);
                Err(ConsensusError::RuleViolation(m))
            },
        }
    }

    /// The output a chain input would spend, with its height and whether it is a coinbase
    /// output.
    pub fn get_utxo(&self, outpoint: &OutPoint) -> (r: Result<Option<(TxOutput, u64, bool)>, ConsensusError>)
        ensures
            self.utxo_set@.dom().contains(*outpoint) ==> (r matches Ok(Some(t)) && t.0@ == self.utxo_set@[*outpoint].output
                && t.1 == self.utxo_set@[*outpoint].creation_height && t.2 == self.utxo_set@[*outpoint].is_coinbase),
            !self.utxo_set@.dom().contains(*outpoint) ==> r == Err::<Option<(TxOutput, u64, bool)>, ConsensusError>(
                ConsensusError::MissingPreviousOutput(*outpoint),
            ),
    {
        match self.utxo_set.get_utxo(outpoint) {
            Some(utxo) => Ok(Some((utxo.output.deep_copy(), utxo.creation_height, utxo.is_coinbase))),
            None => Err(ConsensusError::MissingPreviousOutput(*outpoint)),
        }
    }

    /// Checks that every ticket that voted on a block is live, so that its share of the
    /// stake reward can be paid.
    pub fn distribute_pos_rewards(&self, block: &Block, total_reward: u64) -> (r: Result<(), ConsensusError>)
        ensures
            (forall|i: int| 0 <= i < block.ticket_votes@.len() ==> self.live_tickets@.dom().contains(#[trigger] block.ticket_votes@[i].ticket_id))
                ==> r is Ok,
            forall|k: int| #![trigger block.ticket_votes@[k]]
                0 <= k < block.ticket_votes@.len() && !self.live_tickets@.dom().contains(block.ticket_votes@[k].ticket_id)
                && (forall|i: int| 0 <= i < k ==> self.live_tickets@.dom().contains(#[trigger] block.ticket_votes@[i].ticket_id))
                ==> (r matches Err(e) && e@ == ErrorModel::InvalidTicket("Voted ticket "@ + byte_list(block.ticket_votes@[k].ticket_id@) + " not found in live pool"@)),
    {
        if block.ticket_votes.len() == 0 {
            return Ok(());
        }
        let mut i: usize = 0;
        while i < block.ticket_votes.len()
            invariant
                i <= block.ticket_votes@.len(),
                forall|j: int| 0 <= j < i ==> self.live_tickets@.dom().contains(#[trigger] block.ticket_votes@[j].ticket_id),
            decreases block.ticket_votes@.len() - i,
        {
            let id = block.ticket_votes[i].ticket_id;
            if self.live_tickets.get_ticket(&id).is_none() {
                let mut m = message("Voted ticket ");
                push_byte_list(&mut m, id.as_slice());
                push_text(&mut m, " not found in live pool");
                return Err(ConsensusError::InvalidTicket(m));
            }
            i = i + 1;
        }
        Ok(())
    }

    /// Checks the shape of a stake block's votes: at least three, each naming a non-zero
    /// ticket and carrying a 64-byte signature.
    pub fn validate_pos_components(&self, block: &Block, height: u64) -> (r: Result<(), ConsensusError>)
        ensures
            block.ticket_votes@.len() == 0 ==> r is Ok,
            0 < block.ticket_votes@.len() < 3 ==> (r matches Err(e) && e@ == ErrorModel::InvalidTicketVote(
                "PoS block must have at least 3 votes, got "@ + decimal(block.ticket_votes@.len()))),
            block.ticket_votes@.len() >= 3 ==> {
                let votes = block.ticket_votes@;
                &&& (forall|i: int| 0 <= i < votes.len() ==> #[trigger] vote_shape_ok(votes[i])) ==> r is Ok
                &&& forall|k: int| 0 <= k < votes.len() && !#[trigger] vote_shape_ok(votes[k])
                    && (forall|i: int| 0 <= i < k ==> #[trigger] vote_shape_ok(votes[i]))
                    ==> (r matches Err(e) && e@ == (if is_zero_hash(votes[k].ticket_id) {
                        ErrorModel::InvalidTicketVote("Ticket vote has zero ticket ID"@)
                    } else {
                        ErrorModel::InvalidTicketVote("Ticket vote signature has invalid length: "@ + decimal(votes[k].signature@.len()))
                    }))
            },
    {
        if block.ticket_votes.len() == 0 {
            return Ok(());
        }
        if block.ticket_votes.len() < 3 {
            let mut m = message("PoS block must have at least 3 votes, got ");
            push_decimal(&mut m, block.ticket_votes.len() as u64);
            return Err(ConsensusError::InvalidTicketVote(m));
        }
        let mut i: usize = 0;
        while i < block.ticket_votes.len()
            invariant
                i <= block.ticket_votes@.len(),
                block.ticket_votes@.len() >= 3,
                forall|j: int| 0 <= j < i ==> #[trigger] vote_shape_ok(block.ticket_votes@[j]),
            decreases block.ticket_votes@.len() - i,
        {
            let vote = &block.ticket_votes[i];
            if hash_is_zero(&vote.ticket_id) {
                assert(!vote_shape_ok(block.ticket_votes@[i as int]));
                return Err(ConsensusError::InvalidTicketVote(message("Ticket vote has zero ticket ID")));
            }
            if vote.signature.len() != 64 {
                assert(!vote_shape_ok(block.ticket_votes@[i as int]));
                let mut m = message("Ticket vote signature has invalid length: ");
                push_decimal(&mut m, vote.signature.len() as u64);
                return Err(ConsensusError::InvalidTicketVote(m));
            }
            assert(vote_shape_ok(block.ticket_votes@[i as int]));
            i = i + 1;
        }
        Ok(())
    }

    /// Checks a block's state root: zero only for the genesis block.
    pub fn validate_state_root(&self, block: &Block, height: u64) -> (r: Result<(), ConsensusError>)
        ensures
            is_zero_hash(block.header.state_root) && height > 0 ==> (r matches Err(e) && e@ == ErrorModel::StateError(
                "State root is zero for non-genesis block"@)),
            !(is_zero_hash(block.header.state_root) && height > 0) ==> r is Ok,
    {
        if hash_is_zero(&block.header.state_root) && height > 0 {
            return Err(ConsensusError::StateError(message("State root is zero for non-genesis block")));
        }
        Ok(())
    }

    /// Checks a block's timestamp against the block below it (`previous_timestamp`, if it
    /// is known) and the clock: later than the block below, at most two hours ahead.
    pub fn validate_block_timestamp(&self, block: &Block, height: u64, previous_timestamp: Option<u64>, current_time: u64) -> (r: Result<(), ConsensusError>)
        requires
            current_time + 7200 <= u64::MAX,
        ensures
            height == 0 ==> r is Ok,
            height > 0 && previous_timestamp is None ==> (r matches Err(e) && e@ == ErrorModel::InvalidBlock(
                "Previous block not found for timestamp validation"@)),
            height > 0 && previous_timestamp is Some && block.header.timestamp <= previous_timestamp->0 ==> (r matches Err(e)
                && e@ == ErrorModel::InvalidBlock("Block timestamp "@ + decimal(block.header.timestamp as nat)
                + " is not greater than previous block timestamp "@ + decimal(previous_timestamp->0 as nat))),
            height > 0 && previous_timestamp is Some && block.header.timestamp > previous_timestamp->0
                && block.header.timestamp > current_time + 7200 ==> (r matches Err(e) && e@ == ErrorModel::InvalidBlock(
                "Block timestamp "@ + decimal(block.header.timestamp as nat) + " is more than 2 hours in the future"@)),
            height > 0 && previous_timestamp is Some && block.header.timestamp > previous_timestamp->0
                && block.header.timestamp <= current_time + 7200 ==> r is Ok,
    {
        if height > 0 {
            match previous_timestamp {
                Some(prev) => {
                    if block.header.timestamp <= prev {
                        let mut m = message("Block timestamp ");
                        push_decimal(&mut m, block.header.timestamp);
                        push_text(&mut m, " is not greater than previous block timestamp ");
                        push_decimal(&mut m, prev);
                        return Err(ConsensusError::InvalidBlock(m));
                    }
                    if block.header.timestamp > current_time + 7200 {
                        let mut m = message("Block timestamp ");
                        push_decimal(&mut m, block.header.timestamp);
                        push_text(&mut m, " is more than 2 hours in the future");
                        return Err(ConsensusError::InvalidBlock(m));
                    }
                },
                None => {
                    return Err(ConsensusError::InvalidBlock(message("Previous block not found for timestamp validation")));
                },
            }
        }
        Ok(())
    }
}

/// The block subsidy at a height: the initial reward halved once per completed halving
/// interval, nothing after 64 halvings.
pub open spec fn block_subsidy(height: u64, halving_interval: u64, initial_block_reward: u64) -> nat {
    let halvings = height / halving_interval;
    if halvings >= 64 {
        0
    } else {
        initial_block_reward as nat / vstd::arithmetic::power2::pow2(halvings as nat)
    }
}

/// The block subsidy at a height, as `block_subsidy` states.
pub fn get_block_subsidy(height: u64, halving_interval: u64, initial_block_reward: u64) -> (r: u64)
    requires
        halving_interval > 0,
    ensures
        r == block_subsidy(height, halving_interval, initial_block_reward),
{
    let halvings = height / halving_interval;
    if halvings >= 64 {
        return 0;
    }
    let r = initial_block_reward >> halvings;
    proof {
        vstd::bits::lemma_u64_shr_is_div(initial_block_reward, halvings);
    }
    r
}

/// Each halving interval at most halves the subsidy, and the subsidy never grows.
pub proof fn law_subsidy_never_grows(h1: u64, h2: u64, halving_interval: u64, initial_block_reward: u64)
    requires
        halving_interval > 0,
        h1 <= h2,
    ensures
        block_subsidy(h2, halving_interval, initial_block_reward) <= block_subsidy(h1, halving_interval, initial_block_reward),
{
    let a = h1 / halving_interval;
    let b = h2 / halving_interval;
    assert(a <= b) by (nonlinear_arith)
        requires h1 <= h2, halving_interval > 0, a == h1 / halving_interval, b == h2 / halving_interval;
    if b < 64 {
        vstd::arithmetic::power2::lemma_pow2_pos(a as nat);
        vstd::arithmetic::power2::lemma_pow2_pos(b as nat);
        if a < b {
            vstd::arithmetic::power2::lemma_pow2_strictly_increases(a as nat, b as nat);
        }
        let pa = vstd::arithmetic::power2::pow2(a as nat);
        let pb = vstd::arithmetic::power2::pow2(b as nat);
        let r = initial_block_reward as nat;
        assert(r / pb <= r / pa) by (nonlinear_arith)
            requires pa > 0, pb >= pa;
    }
}

} // verus!
