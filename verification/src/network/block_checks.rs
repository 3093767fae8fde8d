//! The checks a synchronising node applies to the headers and blocks it downloads before
//! it stores them, and the block locator it sends to peers. What the chain state holds
//! (its height, its block hashes, the clock) is handed in as plain values.
use vstd::prelude::*;
use crate::assoc::AssocList;
use crate::bytes::{hash_eq, hash_is_zero, is_zero_hash};
use crate::consensus::error::{message, ConsensusError};
use crate::encoding::{enc_block, encode_block, spec_txid};
use crate::network::sync_manager::{first_duplicate, lemma_first_duplicate_rest, tx_merkle_root, validate_merkle_root};
use crate::text::{byte_list, contains_text, decimal, text_contains, push_byte_list, text_byte_lists, text_number, text_numbers, text_then_number};
use crate::types::{Block, BlockHeader, TicketVote, Transaction, TransactionModel};

verus! {

/// How far ahead of the clock a downloaded header's timestamp may be: a day.
pub const SYNC_MAX_TIME_DRIFT: u64 = 86_400;

/// How far ahead of the chain a downloaded header may be.
pub const MAX_HEADER_LOOKAHEAD: u64 = 10_000;

/// How far ahead of the clock a downloaded block's timestamp may be: two hours.
pub const BLOCK_MAX_TIME_DRIFT: u64 = 7_200;

/// The largest block a synchronising node accepts: 4 MB.
pub const SYNC_MAX_BLOCK_SIZE: usize = 4_000_000;

/// Why a downloaded header fails the lenient checks made while syncing, if it does: a
/// version other than 1, a timestamp over a day ahead of `now`, a height more than 10 000
/// above the chain's, or a zero previous hash above genesis.
pub open spec fn header_sync_error(h: BlockHeader, current_height: u64, now: u64) -> Option<Seq<char>> {
    if h.version != 1 {
        Some("Invalid block version: "@ + decimal(h.version as nat))
    } else if h.timestamp > now + SYNC_MAX_TIME_DRIFT {
        Some("Block timestamp "@ + decimal(h.timestamp as nat) + " is too far in the future"@)
    } else if h.height > current_height + MAX_HEADER_LOOKAHEAD {
        Some("Header height "@ + decimal(h.height as nat) + " is too far ahead of current height "@ + decimal(current_height as nat))
    } else if h.height > 0 && is_zero_hash(h.previous_block_hash) {
        Some("Non-genesis block cannot have zero previous block hash"@)
    } else {
        None
    }
}

/// Checks a downloaded header, as `header_sync_error` states, against the chain height
/// and the clock.
pub fn validate_block_header_enhanced(header: &BlockHeader, current_height: u64, current_time: u64) -> (r: Result<(), ConsensusError>)
    requires
        current_time + SYNC_MAX_TIME_DRIFT <= u64::MAX,
        current_height + MAX_HEADER_LOOKAHEAD <= u64::MAX,
    ensures
        header_sync_error(*header, current_height, current_time) is None ==> r is Ok,
        header_sync_error(*header, current_height, current_time) matches Some(m) ==> (r matches Err(ConsensusError::BlockValidation(e)) && e@ == m),
{
    if header.version != 1 {
        return Err(ConsensusError::BlockValidation(text_then_number("Invalid block version: ", header.version as u64)));
    }
    if header.timestamp > current_time + SYNC_MAX_TIME_DRIFT {
        return Err(ConsensusError::BlockValidation(text_number("Block timestamp ", header.timestamp, " is too far in the future")));
    }
    if header.height > current_height + MAX_HEADER_LOOKAHEAD {
        return Err(ConsensusError::BlockValidation(text_numbers(
            "Header height ",
            header.height,
            " is too far ahead of current height ",
            current_height,
        )));
    }
    if header.height > 0 && hash_is_zero(&header.previous_block_hash) {
        return Err(ConsensusError::BlockValidation(message("Non-genesis block cannot have zero previous block hash")));
    }
    Ok(())
}

/// Checks that a downloaded header continues the stored chain: a genesis header has a
/// zero previous hash; another must name the stored hash at the height below when that
/// hash is known (`expected_previous_hash`), and passes when it is not, the gap being left
/// to block download.
pub fn validate_header_chain_continuity(header: &BlockHeader, expected_previous_hash: Option<[u8; 32]>) -> (r: Result<(), ConsensusError>)
    ensures
        header.height == 0 && !is_zero_hash(header.previous_block_hash) ==> (r matches Err(ConsensusError::BlockValidation(e))
            && e@ == "Genesis block must have zero previous block hash"@),
        header.height == 0 && is_zero_hash(header.previous_block_hash) ==> r is Ok,
        header.height != 0 && (expected_previous_hash is None || expected_previous_hash->0 == header.previous_block_hash) ==> r is Ok,
        header.height != 0 && expected_previous_hash is Some && expected_previous_hash->0 != header.previous_block_hash
            ==> (r matches Err(ConsensusError::BlockValidation(e)) && e@ == "Header chain discontinuity: expected previous hash "@
            + byte_list(expected_previous_hash->0@) + ", got "@ + byte_list(header.previous_block_hash@)),
{
    if header.height == 0 {
        if !hash_is_zero(&header.previous_block_hash) {
            return Err(ConsensusError::BlockValidation(message("Genesis block must have zero previous block hash")));
        }
        return Ok(());
    }
    match expected_previous_hash {
        Some(expected) => {
            if !hash_eq(&header.previous_block_hash, &expected) {
                return Err(ConsensusError::BlockValidation(text_byte_lists(
                    "Header chain discontinuity: expected previous hash ",
                    expected.as_slice(),
                    ", got ",
                    header.previous_block_hash.as_slice(),
                )));
            }
            Ok(())
        },
        None => Ok(()),
    }
}

/// Why a downloaded block's header fails the full checks, if it does: a version other
/// than 1, a previous hash that is not zero exactly for genesis, or a timestamp over two
/// hours ahead of `now`.
pub open spec fn header_full_error(h: BlockHeader, now: u64) -> Option<Seq<char>> {
    if h.version != 1 {
        Some("Invalid block version: "@ + decimal(h.version as nat))
    } else if h.height == 0 && !is_zero_hash(h.previous_block_hash) {
        Some("Genesis block must have zero previous block hash"@)
    } else if h.height != 0 && is_zero_hash(h.previous_block_hash) {
        Some("Non-genesis block cannot have zero previous block hash"@)
    } else if h.timestamp > now + BLOCK_MAX_TIME_DRIFT {
        Some("Block timestamp "@ + decimal(h.timestamp as nat) + " is too far in the future"@)
    } else {
        None
    }
}

/// Checks a downloaded block's header, as `header_full_error` states.
pub fn validate_block_header_comprehensive(header: &BlockHeader, current_time: u64) -> (r: Result<(), ConsensusError>)
    requires
        current_time + BLOCK_MAX_TIME_DRIFT <= u64::MAX,
    ensures
        header_full_error(*header, current_time) is None ==> r is Ok,
        header_full_error(*header, current_time) matches Some(m) ==> (r matches Err(ConsensusError::BlockValidation(e)) && e@ == m),
{
    if header.version != 1 {
        return Err(ConsensusError::BlockValidation(text_then_number("Invalid block version: ", header.version as u64)));
    }
    if header.height == 0 {
        if !hash_is_zero(&header.previous_block_hash) {
            return Err(ConsensusError::BlockValidation(message("Genesis block must have zero previous block hash")));
        }
    } else {
        if hash_is_zero(&header.previous_block_hash) {
            return Err(ConsensusError::BlockValidation(message("Non-genesis block cannot have zero previous block hash")));
        }
    }
    if header.timestamp > current_time + BLOCK_MAX_TIME_DRIFT {
        return Err(ConsensusError::BlockValidation(text_number("Block timestamp ", header.timestamp, " is too far in the future")));
    }
    Ok(())
}

/// Why a downloaded block's transaction list is refused, if it is: it is empty, it does
/// not start with a coinbase, or two transactions share a txid (the first repeated txid
/// is named).
pub open spec fn txs_shape_error(txs: Seq<TransactionModel>) -> Option<Seq<char>> {
    let ids = txs.map_values(|t: TransactionModel| spec_txid(t));
    if txs.len() == 0 {
        Some("Block must contain at least one transaction"@)
    } else if !(txs[0] is Coinbase) {
        Some("First transaction in block must be coinbase"@)
    } else if first_duplicate(ids, ids.len() as int) is Some {
        Some("Duplicate transaction found: "@ + byte_list(first_duplicate(ids, ids.len() as int)->0@))
    } else {
        None
    }
}

/// Checks a downloaded block's transaction list, as `txs_shape_error` states.
pub fn validate_block_transactions_comprehensive(transactions: &Vec<Transaction>) -> (r: Result<(), ConsensusError>)
    ensures
        ({
            let txs = transactions@.map_values(|t: Transaction| t@);
            &&& txs_shape_error(txs) is None ==> r is Ok
            &&& txs_shape_error(txs) matches Some(m) ==> (r matches Err(ConsensusError::BlockValidation(e)) && e@ == m)
        }),
{
    let ghost txs = transactions@.map_values(|t: Transaction| t@);
    let ghost ids = txs.map_values(|t: TransactionModel| spec_txid(t));
    if transactions.len() == 0 {
        return Err(ConsensusError::BlockValidation(message("Block must contain at least one transaction")));
    }
    assert(txs[0] == transactions@[0]@);
    match &transactions[0] {
        Transaction::Coinbase { .. } => {},
        _ => {
            return Err(ConsensusError::BlockValidation(message("First transaction in block must be coinbase")));
        },
    }
    let mut seen: Vec<[u8; 32]> = Vec::new();
    let mut j: usize = 0;
    while j < transactions.len()
        invariant
            j <= transactions@.len(),
            txs == transactions@.map_values(|t: Transaction| t@),
            ids == txs.map_values(|t: TransactionModel| spec_txid(t)),
            seen@ == ids.take(j as int),
            first_duplicate(ids, j as int) is None,
            txs.len() > 0,
            txs[0] is Coinbase,
        decreases transactions@.len() - j,
    {
        let id = transactions[j].txid();
        assert(id == ids[j as int]);
        let mut k: usize = 0;
        let mut found = false;
        while k < seen.len()
            invariant
                k <= seen@.len(),
                found == exists|q: int| 0 <= q < k && seen@[q] == id,
            decreases seen@.len() - k,
        {
            if hash_eq(&seen[k], &id) {
                found = true;
            }
            k = k + 1;
        }
        if found {
            proof {
                assert(ids.take(j as int).contains(ids[j as int]));
                lemma_first_duplicate_rest(ids, j as int + 1, ids.len() as int);
            }
            let mut m = message("Duplicate transaction found: ");
            push_byte_list(&mut m, id.as_slice());
            return Err(ConsensusError::BlockValidation(m));
        }
        seen.push(id);
        assert(ids.take(j as int + 1) =~= ids.take(j as int).push(id));
        j = j + 1;
    }
    assert(ids.len() == j);
    Ok(())
}

/// Whether a stake vote counts while syncing: it names a ticket and the block below.
pub open spec fn vote_counts(v: TicketVote, prev_hash: [u8; 32]) -> bool {
    !is_zero_hash(v.ticket_id) && v.block_hash == prev_hash
}

/// How many of the first `n` votes count while syncing.
pub open spec fn counted_votes(votes: Seq<TicketVote>, prev_hash: [u8; 32], n: int) -> nat
    decreases n,
{
    if n <= 0 {
        0
    } else {
        counted_votes(votes, prev_hash, n - 1) + if vote_counts(votes[n - 1], prev_hash) { 1nat } else { 0nat }
    }
}

/// Why a downloaded block's stake votes are refused, if they are: there are not exactly
/// five, or fewer than three name a ticket and the block below.
pub open spec fn votes_sync_error(votes: Seq<TicketVote>, prev_hash: [u8; 32]) -> Option<Seq<char>> {
    if votes.len() != 5 {
        Some("Invalid ticket_votes count: expected 5, got "@ + decimal(votes.len()))
    } else if counted_votes(votes, prev_hash, 5) < 3 {
        Some("Insufficient valid votes: "@ + decimal(counted_votes(votes, prev_hash, 5)) + " < 3"@)
    } else {
        None
    }
}

/// Checks a downloaded block's stake votes, as `votes_sync_error` states.
pub fn validate_ticket_votes_comprehensive(ticket_votes: &Vec<TicketVote>, header: &BlockHeader) -> (r: Result<(), ConsensusError>)
    ensures
        votes_sync_error(ticket_votes@, header.previous_block_hash) is None ==> r is Ok,
        votes_sync_error(ticket_votes@, header.previous_block_hash) matches Some(m) ==> (r matches Err(ConsensusError::BlockValidation(e)) && e@ == m),
{
    if ticket_votes.len() != 5 {
        return Err(ConsensusError::BlockValidation(text_then_number(
            "Invalid ticket_votes count: expected 5, got ",
            ticket_votes.len() as u64,
        )));
    }
    let mut valid: u64 = 0;
    let mut i: usize = 0;
    while i < ticket_votes.len()
        invariant
            i <= ticket_votes@.len(),
            ticket_votes@.len() == 5,
            valid == counted_votes(ticket_votes@, header.previous_block_hash, i as int),
            valid <= i,
        decreases ticket_votes@.len() - i,
    {
        let vote = &ticket_votes[i];
        if !hash_is_zero(&vote.ticket_id) && hash_eq(&vote.block_hash, &header.previous_block_hash) {
            valid = valid + 1;
        }
        i = i + 1;
    }
    if valid < 3 {
        return Err(ConsensusError::BlockValidation(text_number("Insufficient valid votes: ", valid, " < 3")));
    }
    Ok(())
}

/// Checks that a downloaded block's encoding is at most 4 MB.
pub fn validate_block_size_comprehensive(block: &Block) -> (r: Result<(), ConsensusError>)
    ensures
        enc_block(*block).len() <= SYNC_MAX_BLOCK_SIZE ==> r is Ok,
        enc_block(*block).len() > SYNC_MAX_BLOCK_SIZE ==> (r matches Err(ConsensusError::BlockValidation(e))
            && e@ == "Block size "@ + decimal(enc_block(*block).len()) + " exceeds maximum 4000000"@),
{
    let size = encode_block(block).len();
    if size > SYNC_MAX_BLOCK_SIZE {
        return Err(ConsensusError::BlockValidation(text_number("Block size ", size as u64, " exceeds maximum 4000000")));
    }
    Ok(())
}

/// Why a downloaded block is refused, if it is: its header, its transaction list, its
/// Merkle root, its stake votes and its size are checked in that order.
pub open spec fn block_sync_error(b: Block, now: u64) -> Option<Seq<char>> {
    let txs = b.transactions@.map_values(|t: Transaction| t@);
    if header_full_error(b.header, now) is Some {
        header_full_error(b.header, now)
    } else if txs_shape_error(txs) is Some {
        txs_shape_error(txs)
    } else if b.header.merkle_root != tx_merkle_root(txs) {
        Some("Merkle root mismatch: expected "@ + byte_list(b.header.merkle_root@) + ", calculated "@ + byte_list(tx_merkle_root(txs)@))
    } else if votes_sync_error(b.ticket_votes@, b.header.previous_block_hash) is Some {
        votes_sync_error(b.ticket_votes@, b.header.previous_block_hash)
    } else if enc_block(b).len() > SYNC_MAX_BLOCK_SIZE {
        Some("Block size "@ + decimal(enc_block(b).len()) + " exceeds maximum 4000000"@)
    } else {
        None
    }
}

/// Checks a downloaded block before it is stored, as `block_sync_error` states.
pub fn verify_block_comprehensive(block: &Block, current_time: u64) -> (r: Result<(), ConsensusError>)
    requires
        current_time + BLOCK_MAX_TIME_DRIFT <= u64::MAX,
    ensures
        block_sync_error(*block, current_time) is None ==> r is Ok,
        block_sync_error(*block, current_time) matches Some(m) ==> (r matches Err(ConsensusError::BlockValidation(e)) && e@ == m),
{
    match validate_block_header_comprehensive(&block.header, current_time) {
        Ok(()) => {},
        Err(e) => {
            return Err(e);
        },
    }
    match validate_block_transactions_comprehensive(&block.transactions) {
        Ok(()) => {},
        Err(e) => {
            return Err(e);
        },
    }
    match validate_merkle_root(block) {
        Ok(()) => {},
        Err(e) => {
            return Err(e);
        },
    }
    match validate_ticket_votes_comprehensive(&block.ticket_votes, &block.header) {
        Ok(()) => {},
        Err(e) => {
            return Err(e);
        },
    }
    validate_block_size_comprehensive(block)
}

/// The hashes a block locator visits from `height`, stepping back by `step` and doubling
/// it, while fewer than ten are found: the known hash at each visited height is added to
/// `acc`; the walk stops at height zero or when the step no longer fits.
pub open spec fn locator_walk(hashes: Map<u64, [u8; 32]>, height: u64, step: u64, acc: Seq<[u8; 32]>) -> Seq<[u8; 32]>
    decreases height,
{
    if height == 0 || acc.len() >= 10 {
        acc
    } else {
        let acc2 = if hashes.dom().contains(height) { acc.push(hashes[height]) } else { acc };
        if height < step || step == 0 {
            acc2
        } else {
            let next_step: u64 = if step <= u64::MAX / 2 { (2 * step) as u64 } else { u64::MAX };
            locator_walk(hashes, (height - step) as u64, next_step, acc2)
        }
    }
}

/// The block locator from `start_height`: the walk's hashes, then the zero genesis hash
/// unless the walk already ends with it.
pub open spec fn block_locator(hashes: Map<u64, [u8; 32]>, start_height: u64) -> Seq<[u8; 32]> {
    let w = locator_walk(hashes, start_height, 1, Seq::empty());
    if w.len() == 0 || !is_zero_hash(w.last()) {
        w.push(choose|z: [u8; 32]| is_zero_hash(z))
    } else {
        w
    }
}

/// The block locator from `start_height` over the stored block hashes by height, as
/// `block_locator` states.
pub fn build_locator_hashes(start_height: u64, block_hashes: &AssocList<u64, [u8; 32]>) -> (r: Vec<[u8; 32]>)
    ensures
        r@ == block_locator(block_hashes.map(), start_height),
{
    let ghost m = block_hashes.map();
    let mut locator: Vec<[u8; 32]> = Vec::new();
    let mut height = start_height;
    let mut step: u64 = 1;
    while height > 0 && locator.len() < 10
        invariant_except_break
            m == block_hashes.map(),
            step >= 1,
            locator_walk(m, height, step, locator@) == locator_walk(m, start_height, 1, Seq::empty()),
        ensures
            locator@ == locator_walk(m, start_height, 1, Seq::empty()),
        decreases height,
    {
        match block_hashes.get(&height) {
            Some(h) => {
                locator.push(*h);
            },
            None => {},
        }
        if height < step {
            break;
        }
        height = height - step;
        step = if step <= u64::MAX / 2 { 2 * step } else { u64::MAX };
    }
    let n = locator.len();
    if n == 0 || !hash_is_zero(&locator[n - 1]) {
        let zero: [u8; 32] = [0u8; 32];
        assert(is_zero_hash(zero));
        proof {
            let z = choose|z: [u8; 32]| is_zero_hash(z);
            assert(zero =~= z);
        }
        locator.push(zero);
    }
    locator
}

/// Whether an error during synchronisation points at a reorganisation of the chain: a
/// block validation error whose text mentions a chain discontinuity, a previous block
/// hash mismatch, or a height.
pub open spec fn signals_reorg(e: ConsensusError) -> bool {
    e matches ConsensusError::BlockValidation(m) && (text_contains(m@, "chain discontinuity"@)
        || text_contains(m@, "previous block hash mismatch"@) || text_contains(m@, "height"@))
}

/// Whether an error points at a reorganisation, as `signals_reorg` states.
pub fn detect_reorg(error: &ConsensusError) -> (r: bool)
    ensures
        r == signals_reorg(*error),
{
    match error {
        ConsensusError::BlockValidation(msg) => {
            contains_text(msg.as_str(), "chain discontinuity") || contains_text(msg.as_str(), "previous block hash mismatch")
                || contains_text(msg.as_str(), "height")
        },
        _ => false,
    }
}

} // verus!
