//! The checks a node applies to headers, blocks, transactions and stake votes it receives
//! while synchronising. What the chain state holds (the current height, the hash at a
//! height, the clock) is handed in as plain values.
use vstd::prelude::*;
use crate::bytes::{extend_bytes, hash_eq, hash_is_zero, hash_lt, is_zero_hash, push_u32_le, push_u64_le, seq_lt, u32_le, u64_le};
use crate::consensus::error::{message, ConsensusError};
use crate::crypto::{blake3_digest, blake3_hash};
use crate::text::{byte_list, decimal, text_byte_lists, text_number, text_numbers, text_then_number};
use crate::consensus::utxo_set::UtxoSet;
use crate::text::{push_byte_list, push_decimal, push_text, text_numbers_text};
use crate::consensus::pos::LiveTicketsPool;
use crate::crypto::{decode_public_key, decode_signature, ed25519_point_decompresses, ed25519_verifies, ed25519_verify, signature_decodes};
use crate::encoding::{enc_block, encode_block, spec_txid};
use crate::text::{hex_encode, hex_text};
use crate::consensus::state::BlockchainState;
use crate::types::{byte_lists, inputs_view, outputs_view, Block, TicketModel, TicketVote, BlockHeader, OutPoint, Transaction, TransactionModel, TxInput, TxInputModel, TxOutput, TxOutputModel, UtxoModel};

verus! {

/// How far a synchronisation has come.
#[derive(Debug, Clone, PartialEq)]
pub enum SyncState {
    NotSynced,
    HeaderSync,
    BlockSync,
    Synced,
    Error(String),
}

/// Whether the node is fully synchronised.
pub fn is_synced(state: &SyncState) -> (r: bool)
    ensures
        r == (state is Synced),
{
    match state {
        SyncState::Synced => true,
        _ => false,
    }
}

/// The progress of a synchronisation in percent: headers are a quarter of the work and
/// blocks the rest.
pub fn get_sync_progress(state: &SyncState) -> (r: u32)
    ensures
        r == match state {
            SyncState::NotSynced => 0u32,
            SyncState::HeaderSync => 25,
            SyncState::BlockSync => 75,
            SyncState::Synced => 100,
            SyncState::Error(_) => 0,
        },
{
    match state {
        SyncState::NotSynced => 0,
        SyncState::HeaderSync => 25,
        SyncState::BlockSync => 75,
        SyncState::Synced => 100,
        SyncState::Error(_) => 0,
    }
}

/// The estimated encoded size of a transaction: 10 bytes, 148 per input, 34 per output.
pub open spec fn estimated_tx_size(inputs: nat, outputs: nat) -> nat {
    10 + 148 * inputs + 34 * outputs
}

/// The estimated encoded size of a transaction, as `estimated_tx_size` states.
pub fn estimate_transaction_size(input_count: usize, output_count: usize) -> (r: usize)
    requires
        estimated_tx_size(input_count as nat, output_count as nat) <= usize::MAX,
    ensures
        r == estimated_tx_size(input_count as nat, output_count as nat),
{
    10 + (input_count * 148) + (output_count * 34)
}

/// The compact difficulty target every block carries: 0x1d00ffff.
pub const BASE_DIFFICULTY: u32 = 0x1d00ffff;

/// The difficulty target expected at a height: the base target at every height (the
/// adjustment every 2016 blocks compares fourteen days with 2016 ten-minute blocks, which
/// are equal, and so leaves it unchanged).
pub fn calculate_expected_difficulty(height: u64) -> (r: Result<u32, ConsensusError>)
    ensures
        r == Ok::<u32, ConsensusError>(BASE_DIFFICULTY),
{
    if height == 0 {
        return Ok(BASE_DIFFICULTY);
    }
    let time_span: u64 = 14 * 24 * 60 * 60;
    let target_time_span: u64 = 10 * 60 * 2016;
    if time_span > target_time_span * 4 {
        Ok(BASE_DIFFICULTY * 4)
    } else if time_span < target_time_span / 4 {
        Ok(BASE_DIFFICULTY / 4)
    } else {
        Ok(BASE_DIFFICULTY)
    }
}

/// The bytes the proof-of-work hash of a header covers: version, height, previous hash,
/// Merkle root, state root, timestamp, difficulty target and nonce, integers little-endian.
pub open spec fn pow_preimage(h: BlockHeader) -> Seq<u8> {
    u32_le(h.version) + u64_le(h.height) + h.previous_block_hash@ + h.merkle_root@ + h.state_root@
        + u64_le(h.timestamp) + u32_le(h.difficulty_target) + u64_le(h.nonce)
}

/// The proof-of-work hash of a header: BLAKE3 applied twice to its preimage.
pub open spec fn pow_hash(h: BlockHeader) -> [u8; 32] {
    blake3_digest(blake3_digest(pow_preimage(h))@)
}

/// The proof-of-work hash of a header, as `pow_hash` states.
pub fn calculate_block_hash(header: &BlockHeader) -> (r: [u8; 32])
    ensures
        r == pow_hash(*header),
{
    let mut buf: Vec<u8> = Vec::new();
    push_u32_le(&mut buf, header.version);
    push_u64_le(&mut buf, header.height);
    extend_bytes(&mut buf, header.previous_block_hash.as_slice());
    extend_bytes(&mut buf, header.merkle_root.as_slice());
    extend_bytes(&mut buf, header.state_root.as_slice());
    push_u64_le(&mut buf, header.timestamp);
    push_u32_le(&mut buf, header.difficulty_target);
    push_u64_le(&mut buf, header.nonce);
    assert(buf@ =~= pow_preimage(*header));
    let first = blake3_hash(buf.as_slice());
    blake3_hash(first.as_slice())
}

/// The exponent byte of a compact difficulty target.
pub open spec fn compact_exponent(d: u32) -> int {
    d as int / 0x100_0000
}

/// The mantissa of a compact difficulty target, as the threshold reads it: the low 23 bits.
pub open spec fn threshold_mantissa(d: u32) -> int {
    d as int % 0x80_0000
}

/// Whether the threshold of a compact target can be computed: its exponent leaves the
/// mantissa's shift within 32 bits.
pub open spec fn threshold_defined(d: u32) -> bool {
    compact_exponent(d) < 7
}

/// The 32-bit difficulty value of a compact target: the mantissa shifted right by whole
/// bytes for an exponent up to 3, else left (dropping bits beyond 32).
pub open spec fn compact_difficulty_value(d: u32) -> int {
    let e = compact_exponent(d);
    let m = threshold_mantissa(d);
    if e == 0 {
        m / 0x100_0000
    } else if e == 1 {
        m / 0x1_0000
    } else if e == 2 {
        m / 0x100
    } else if e == 3 {
        m
    } else if e == 4 {
        (m * 0x100) % 0x1_0000_0000
    } else if e == 5 {
        (m * 0x1_0000) % 0x1_0000_0000
    } else {
        (m * 0x100_0000) % 0x1_0000_0000
    }
}

/// The threshold a proof-of-work hash must stay below: `u64::MAX` divided by the
/// difficulty value (or `u64::MAX` itself for a zero value), in the first eight bytes
/// little-endian, the rest zero.
pub open spec fn difficulty_threshold(d: u32) -> Seq<u8> {
    let v = compact_difficulty_value(d);
    let target = if v > 0 { (u64::MAX as int / v) as u64 } else { u64::MAX };
    u64_le(target) + Seq::new(24, |i: int| 0u8)
}

/// The threshold of a compact difficulty target, as `difficulty_threshold` states.
pub fn difficulty_target_to_threshold(difficulty_target: u32) -> (r: [u8; 32])
    requires
        threshold_defined(difficulty_target),
    ensures
        r@ == difficulty_threshold(difficulty_target),
{
    let mantissa = difficulty_target & 0x007fffff;
    let exponent = (difficulty_target >> 24) & 0xff;
    assert(mantissa == threshold_mantissa(difficulty_target)) by (bit_vector)
        requires
            mantissa == difficulty_target & 0x007fffff,
    ;
    assert(exponent == compact_exponent(difficulty_target)) by (bit_vector)
        requires
            exponent == (difficulty_target >> 24) & 0xff,
    ;
    let difficulty_value: u32 = if exponent <= 3 {
        let v = mantissa >> (8 * (3 - exponent));
        proof {
            if exponent == 0 {
                assert(mantissa >> 24u32 == mantissa / 0x100_0000) by (bit_vector);
            } else if exponent == 1 {
                assert(mantissa >> 16u32 == mantissa / 0x1_0000) by (bit_vector);
            } else if exponent == 2 {
                assert(mantissa >> 8u32 == mantissa / 0x100) by (bit_vector);
            } else {
                assert(mantissa >> 0u32 == mantissa) by (bit_vector);
            }
        }
        v
    } else {
        let v = mantissa << (8 * (exponent - 3));
        proof {
            if exponent == 4 {
                assert(mantissa << 8u32 == (mantissa * 0x100) % 0x1_0000_0000) by (bit_vector);
            } else if exponent == 5 {
                assert(mantissa << 16u32 == (mantissa * 0x1_0000) % 0x1_0000_0000) by (bit_vector);
            } else {
                assert(mantissa << 24u32 == (mantissa * 0x100_0000) % 0x1_0000_0000) by (bit_vector);
            }
        }
        v
    };
    assert(difficulty_value == compact_difficulty_value(difficulty_target));
    let target: u64 = if difficulty_value > 0 {
        u64::MAX / (difficulty_value as u64)
    } else {
        u64::MAX
    };
    let mut bytes: Vec<u8> = Vec::new();
    push_u64_le(&mut bytes, target);
    let mut i: usize = 0;
    while i < 24
        invariant
            i <= 24,
            bytes@ == u64_le(target) + Seq::new(i as nat, |j: int| 0u8),
        decreases 24 - i,
    {
        bytes.push(0u8);
        i = i + 1;
        assert(bytes@ =~= u64_le(target) + Seq::new(i as nat, |j: int| 0u8));
    }
    let mut threshold = [0u8; 32];
    let mut k: usize = 0;
    while k < 32
        invariant
            k <= 32,
            bytes@.len() == 32,
            threshold@.len() == 32,
            forall|j: int| 0 <= j < k ==> threshold@[j] == bytes@[j],
        decreases 32 - k,
    {
        threshold.set(k, bytes[k]);
        k = k + 1;
    }
    assert(threshold@ =~= bytes@);
    threshold
}

/// Checks that a header's proof-of-work hash lies below the threshold of its difficulty
/// target.
pub fn validate_pow_hash(header: &BlockHeader) -> (r: Result<(), ConsensusError>)
    requires
        threshold_defined(header.difficulty_target),
    ensures
        seq_lt(pow_hash(*header)@, difficulty_threshold(header.difficulty_target)) ==> r is Ok,
        !seq_lt(pow_hash(*header)@, difficulty_threshold(header.difficulty_target)) ==> (r matches Err(ConsensusError::BlockValidation(m))
            && m@ == "Block hash "@ + byte_list(pow_hash(*header)@) + " does not meet difficulty target "@
                + byte_list(difficulty_threshold(header.difficulty_target))),
{
    let block_hash = calculate_block_hash(header);
    let threshold = difficulty_target_to_threshold(header.difficulty_target);
    if !hash_lt(&block_hash, &threshold) {
        return Err(ConsensusError::BlockValidation(
            text_byte_lists("Block hash ", block_hash.as_slice(), " does not meet difficulty target ", threshold.as_slice()),
        ));
    }
    Ok(())
}

/// Checks that a header follows the stored header below it: a genesis header always
/// does; otherwise the header at the height below must be known (`previous_hash`) and be
/// the one this header names.
pub fn validate_header_continuity(header: &BlockHeader, previous_hash: Option<[u8; 32]>) -> (r: Result<(), ConsensusError>)
    ensures
        header.height == 0 ==> r is Ok,
        header.height != 0 && previous_hash is None ==> (r matches Err(ConsensusError::BlockValidation(m))
            && m@ == "Previous header not found at height "@ + decimal((header.height - 1) as nat)),
        header.height != 0 && previous_hash is Some && previous_hash->0 != header.previous_block_hash ==> (r matches Err(ConsensusError::BlockValidation(m))
            && m@ == "Header chain discontinuity: expected previous hash "@ + byte_list(previous_hash->0@) + ", got "@ + byte_list(header.previous_block_hash@)),
        header.height != 0 && previous_hash is Some && previous_hash->0 == header.previous_block_hash ==> r is Ok,
{
    if header.height == 0 {
        return Ok(());
    }
    let previous_height = header.height - 1;
    match previous_hash {
        Some(p) => {
            if !hash_eq(&header.previous_block_hash, &p) {
                return Err(ConsensusError::BlockValidation(text_byte_lists(
                    "Header chain discontinuity: expected previous hash ",
                    p.as_slice(),
                    ", got ",
                    header.previous_block_hash.as_slice(),
                )));
            }
            if header.height != previous_height + 1 {
                return Err(ConsensusError::BlockValidation(text_numbers(
                    "Invalid header height: expected ",
                    previous_height + 1,
                    ", got ",
                    header.height,
                )));
            }
            Ok(())
        },
        None => Err(ConsensusError::BlockValidation(text_then_number("Previous header not found at height ", previous_height))),
    }
}

/// The largest a block timestamp may run ahead of the clock: two hours.
pub const MAX_TIME_DRIFT: u64 = 7200;

/// Why a header fails the checks made before its proof of work, if it does, given the
/// current chain height, the stored hash at the height below (if any) and the clock.
pub open spec fn header_error(h: BlockHeader, current_height: u64, previous_hash: Option<[u8; 32]>, now: u64) -> Option<Seq<char>> {
    let expected_height: int = if h.height == 0 { 0 } else { current_height + 1 };
    if h.version != 1 {
        Some("Invalid block version: "@ + decimal(h.version as nat))
    } else if h.height != expected_height {
        Some("Invalid block height: expected "@ + decimal(expected_height as nat) + ", got "@ + decimal(h.height as nat))
    } else if h.height == 0 && !is_zero_hash(h.previous_block_hash) {
        Some("Genesis block must have zero previous block hash"@)
    } else if h.height != 0 && is_zero_hash(h.previous_block_hash) {
        Some("Non-genesis block cannot have zero previous block hash"@)
    } else if h.height != 0 && previous_hash is Some && previous_hash->0 != h.previous_block_hash {
        Some("Previous block hash mismatch: expected "@ + byte_list(previous_hash->0@) + ", got "@ + byte_list(h.previous_block_hash@))
    } else if h.timestamp > now + MAX_TIME_DRIFT {
        Some("Block timestamp "@ + decimal(h.timestamp as nat) + " is too far in the future"@)
    } else if h.difficulty_target != BASE_DIFFICULTY {
        Some("Invalid difficulty target: expected "@ + decimal(BASE_DIFFICULTY as nat) + ", got "@ + decimal(h.difficulty_target as nat))
    } else {
        None
    }
}

/// Checks a header against the protocol: version 1, the next height (0 for genesis),
/// a previous hash that is zero exactly for genesis and otherwise the stored one when
/// known, a timestamp at most two hours ahead, the base difficulty target and then the
/// proof of work. A header that passes the checks before the proof of work carries the
/// base target, whose exponent shifts the mantissa beyond 32 bits when its threshold is
/// computed; such a header is left out by the precondition.
pub fn validate_block_header(header: &BlockHeader, current_height: u64, previous_hash: Option<[u8; 32]>, current_time: u64) -> (r: Result<(), ConsensusError>)
    requires
        header.height == 0 || current_height < u64::MAX,
        current_time + MAX_TIME_DRIFT <= u64::MAX,
        header_error(*header, current_height, previous_hash, current_time) is Some,
    ensures
        header_error(*header, current_height, previous_hash, current_time) matches Some(m) ==> (r matches Err(ConsensusError::BlockValidation(e)) && e@ == m),
{
    if header.version != 1 {
        return Err(ConsensusError::BlockValidation(text_then_number("Invalid block version: ", header.version as u64)));
    }
    let expected_height = if header.height == 0 { 0 } else { current_height + 1 };
    if header.height != expected_height {
        return Err(ConsensusError::BlockValidation(text_numbers(
            "Invalid block height: expected ",
            expected_height,
            ", got ",
            header.height,
        )));
    }
    if header.height == 0 {
        if !hash_is_zero(&header.previous_block_hash) {
            return Err(ConsensusError::BlockValidation(message("Genesis block must have zero previous block hash")));
        }
    } else {
        if hash_is_zero(&header.previous_block_hash) {
            return Err(ConsensusError::BlockValidation(message("Non-genesis block cannot have zero previous block hash")));
        }
        match previous_hash {
            Some(p) => {
                if !hash_eq(&header.previous_block_hash, &p) {
                    return Err(ConsensusError::BlockValidation(text_byte_lists(
                        "Previous block hash mismatch: expected ",
                        p.as_slice(),
                        ", got ",
                        header.previous_block_hash.as_slice(),
                    )));
                }
            },
            None => {},
        }
    }
    if header.timestamp > current_time + MAX_TIME_DRIFT {
        return Err(ConsensusError::BlockValidation(text_number("Block timestamp ", header.timestamp, " is too far in the future")));
    }
    let expected_difficulty = match calculate_expected_difficulty(header.height) {
        Ok(d) => d,
        Err(e) => {
            return Err(e);
        },
    };
    if header.difficulty_target != expected_difficulty {
        return Err(ConsensusError::BlockValidation(text_numbers(
            "Invalid difficulty target: expected ",
            expected_difficulty as u64,
            ", got ",
            header.difficulty_target as u64,
        )));
    }
    validate_pow_hash(header)
}

/// The most coins there can be, in satoshis.
pub const MAX_MONEY: u64 = 2_100_000_000_000_000;

/// The largest script a transaction may carry.
pub const MAX_SCRIPT_BYTES: usize = 10_000;

/// The largest memo an output may carry.
pub const MAX_MEMO_SIZE: usize = 80;

/// The most inputs and outputs a transaction may have together.
pub const MAX_TX_IO_COUNT: usize = 250;

/// The most witness items a transaction may carry.
pub const MAX_WITNESS_SIZE: usize = 10_000;

/// The largest witness item.
pub const MAX_WITNESS_ITEM_BYTES: usize = 520;

/// Blocks before a coinbase output can be spent.
pub const COINBASE_MATURITY: u64 = 100;

/// An outpoint as `{:?}` prints it.
pub open spec fn outpoint_text(o: OutPoint) -> Seq<char> {
    "OutPoint { txid: "@ + byte_list(o.txid@) + ", vout: "@ + decimal(o.vout as nat) + " }"@
}

/// An outpoint as `{:?}` prints it, as `outpoint_text` states.
pub fn format_outpoint(o: &OutPoint) -> (r: String)
    ensures
        r@ == outpoint_text(*o),
{
    let mut s = message("OutPoint { txid: ");
    push_byte_list(&mut s, o.txid.as_slice());
    push_text(&mut s, ", vout: ");
    push_decimal(&mut s, o.vout as u64);
    push_text(&mut s, " }");
    s
}

/// Why an output is refused, if it is: a zero value outside an `OP_RETURN` script, a
/// value above the money supply, an oversized script or an oversized memo.
pub open spec fn tx_output_error(o: TxOutputModel) -> Option<Seq<char>> {
    if o.value == 0 && !(o.script_pubkey.len() > 0 && o.script_pubkey[0] == 0x6a) {
        Some("Non-OP_RETURN output cannot have zero value"@)
    } else if o.value > MAX_MONEY {
        Some("Output value exceeds maximum: "@ + decimal(o.value as nat) + " > "@ + decimal(MAX_MONEY as nat))
    } else if o.script_pubkey.len() > MAX_SCRIPT_BYTES {
        Some("Script pubkey too long: "@ + decimal(o.script_pubkey.len()) + " > "@ + decimal(MAX_SCRIPT_BYTES as nat))
    } else if o.memo is Some && o.memo->0.len() > MAX_MEMO_SIZE {
        Some("Memo too large: "@ + decimal(o.memo->0.len()) + " > "@ + decimal(MAX_MEMO_SIZE as nat))
    } else {
        None
    }
}

/// Checks an output, as `tx_output_error` states.
pub fn validate_tx_output(output: &TxOutput) -> (r: Result<(), ConsensusError>)
    ensures
        tx_output_error(output@) is None ==> r is Ok,
        tx_output_error(output@) matches Some(m) ==> (r matches Err(ConsensusError::BlockValidation(e)) && e@ == m),
{
    if output.value == 0 {
        if !(output.script_pubkey.len() > 0 && output.script_pubkey[0] == 0x6a) {
            return Err(ConsensusError::BlockValidation(message("Non-OP_RETURN output cannot have zero value")));
        }
    } else if output.value > MAX_MONEY {
        return Err(ConsensusError::BlockValidation(text_numbers("Output value exceeds maximum: ", output.value, " > ", MAX_MONEY)));
    }
    if output.script_pubkey.len() > MAX_SCRIPT_BYTES {
        return Err(ConsensusError::BlockValidation(text_numbers(
            "Script pubkey too long: ",
            output.script_pubkey.len() as u64,
            " > ",
            MAX_SCRIPT_BYTES as u64,
        )));
    }
    match &output.memo {
        Some(memo) => {
            if memo.len() > MAX_MEMO_SIZE {
                return Err(ConsensusError::BlockValidation(text_numbers(
                    "Memo too large: ",
                    memo.len() as u64,
                    " > ",
                    MAX_MEMO_SIZE as u64,
                )));
            }
        },
        None => {},
    }
    Ok(())
}

/// Why an input is refused, if it is, against the unspent outputs and the chain height:
/// a zero previous txid, an oversized unlocking script, an unknown output, an immature
/// coinbase output or an oversized locking script.
pub open spec fn tx_input_error(i: TxInputModel, utxos: Map<OutPoint, UtxoModel>, height: u64) -> Option<Seq<char>> {
    let op = i.previous_output;
    if is_zero_hash(op.txid) {
        Some("Transaction input has zero previous output hash"@)
    } else if i.script_sig.len() > MAX_SCRIPT_BYTES {
        Some("Script signature too long: "@ + decimal(i.script_sig.len()) + " > "@ + decimal(MAX_SCRIPT_BYTES as nat))
    } else if !utxos.dom().contains(op) {
        Some("Referenced UTXO does not exist: "@ + outpoint_text(op))
    } else if utxos[op].is_coinbase && height < utxos[op].creation_height + COINBASE_MATURITY {
        Some("Coinbase UTXO not mature: height "@ + decimal(height as nat) + " < "@ + decimal(utxos[op].creation_height as nat) + " + 100"@)
    } else if utxos[op].output.script_pubkey.len() > MAX_SCRIPT_BYTES {
        Some("Script pubkey too long: "@ + decimal(utxos[op].output.script_pubkey.len()) + " > "@ + decimal(MAX_SCRIPT_BYTES as nat))
    } else {
        None
    }
}

/// Checks an input, as `tx_input_error` states.
pub fn validate_tx_input(input: &TxInput, utxo_set: &UtxoSet, current_height: u64) -> (r: Result<(), ConsensusError>)
    ensures
        tx_input_error(input@, utxo_set@, current_height) is None ==> r is Ok,
        tx_input_error(input@, utxo_set@, current_height) matches Some(m) ==> (r matches Err(ConsensusError::BlockValidation(e)) && e@ == m),
{
    if hash_is_zero(&input.previous_output.txid) {
        return Err(ConsensusError::BlockValidation(message("Transaction input has zero previous output hash")));
    }
    if input.script_sig.len() > MAX_SCRIPT_BYTES {
        return Err(ConsensusError::BlockValidation(text_numbers(
            "Script signature too long: ",
            input.script_sig.len() as u64,
            " > ",
            MAX_SCRIPT_BYTES as u64,
        )));
    }
    let outpoint = input.previous_output;
    match utxo_set.get_utxo(&outpoint) {
        Some(utxo) => {
            if utxo.is_coinbase && (current_height as u128) < (utxo.creation_height as u128) + (COINBASE_MATURITY as u128) {
                return Err(ConsensusError::BlockValidation(text_numbers_text(
                    "Coinbase UTXO not mature: height ",
                    current_height,
                    " < ",
                    utxo.creation_height,
                    " + 100",
                )));
            }
            if utxo.output.script_pubkey.len() > MAX_SCRIPT_BYTES {
                return Err(ConsensusError::BlockValidation(text_numbers(
                    "Script pubkey too long: ",
                    utxo.output.script_pubkey.len() as u64,
                    " > ",
                    MAX_SCRIPT_BYTES as u64,
                )));
            }
            Ok(())
        },
        None => {
            let mut m = message("Referenced UTXO does not exist: ");
            let t = format_outpoint(&outpoint);
            push_text(&mut m, t.as_str());
            Err(ConsensusError::BlockValidation(m))
        },
    }
}

/// The error of the first of the first `n` outputs that is refused, if any.
pub open spec fn first_output_error(outs: Seq<TxOutputModel>, n: int) -> Option<Seq<char>>
    decreases n,
{
    if n <= 0 {
        None
    } else {
        match first_output_error(outs, n - 1) {
            Some(e) => Some(e),
            None => tx_output_error(outs[n - 1]),
        }
    }
}

/// The error of the first of the first `n` inputs that is refused, if any.
pub open spec fn first_input_error(ins: Seq<TxInputModel>, utxos: Map<OutPoint, UtxoModel>, height: u64, n: int) -> Option<Seq<char>>
    decreases n,
{
    if n <= 0 {
        None
    } else {
        match first_input_error(ins, utxos, height, n - 1) {
            Some(e) => Some(e),
            None => tx_input_error(ins[n - 1], utxos, height),
        }
    }
}

/// The error of the first of the first `n` witness items that is too large, if any.
pub open spec fn first_witness_error(w: Seq<Seq<u8>>, n: int) -> Option<Seq<char>>
    decreases n,
{
    if n <= 0 {
        None
    } else {
        match first_witness_error(w, n - 1) {
            Some(e) => Some(e),
            None => if w[n - 1].len() > MAX_WITNESS_ITEM_BYTES {
                Some("Witness element "@ + decimal((n - 1) as nat) + " too large: "@ + decimal(w[n - 1].len()) + " > 520"@)
            } else {
                None
            },
        }
    }
}

/// The value the first `n` inputs spend, counting an input whose output is unknown as
/// zero.
pub open spec fn input_value_sum(ins: Seq<TxInputModel>, utxos: Map<OutPoint, UtxoModel>, n: int) -> nat
    decreases n,
{
    if n <= 0 {
        0
    } else {
        input_value_sum(ins, utxos, n - 1) + (if utxos.dom().contains(ins[n - 1].previous_output) {
            utxos[ins[n - 1].previous_output].output.value as nat
        } else {
            0nat
        })
    }
}

/// The value of the first `n` outputs.
pub open spec fn output_value_sum(outs: Seq<TxOutputModel>, n: int) -> nat
    decreases n,
{
    if n <= 0 {
        0
    } else {
        output_value_sum(outs, n - 1) + (outs[n - 1].value as nat)
    }
}

/// Whether the sums a standard transaction's fee check computes fit a `u64`: the value
/// its inputs spend and the minimum relay fee for its estimated size.
pub open spec fn fee_sums_fit(t: TransactionModel, utxos: Map<OutPoint, UtxoModel>, min_relay_fee_per_byte: u64) -> bool {
    t matches TransactionModel::Standard { inputs, outputs, .. } ==> {
        &&& input_value_sum(inputs, utxos, inputs.len() as int) <= u64::MAX
        &&& (inputs.len() + outputs.len() <= MAX_TX_IO_COUNT
            ==> min_relay_fee_per_byte * estimated_tx_size(inputs.len(), outputs.len()) <= u64::MAX)
    }
}

/// Why a transaction is refused, if it is, against the unspent outputs, the chain height
/// and the minimum relay fee per byte (`is_coinbase` marks the first transaction of a
/// block, whose inputs are not checked).
pub open spec fn tx_error(t: TransactionModel, is_coinbase: bool, utxos: Map<OutPoint, UtxoModel>, height: u64, min_relay_fee_per_byte: u64) -> Option<Seq<char>> {
    match t {
        TransactionModel::Standard { version, inputs, outputs, witness, .. } => {
            let n_in = inputs.len();
            let n_out = outputs.len();
            let fee = input_value_sum(inputs, utxos, n_in as int) - output_value_sum(outputs, n_out as int);
            let actual_fee: int = if fee > 0 { fee } else { 0 };
            let min_fee = min_relay_fee_per_byte * estimated_tx_size(n_in, n_out);
            if version != 1 {
                Some("Invalid transaction version: "@ + decimal(version as nat))
            } else if !is_coinbase && n_in == 0 {
                Some("Non-coinbase transaction must have at least one input"@)
            } else if !is_coinbase && first_input_error(inputs, utxos, height, n_in as int) is Some {
                first_input_error(inputs, utxos, height, n_in as int)
            } else if n_out == 0 {
                Some("Transaction must have at least one output"@)
            } else if n_in + n_out > MAX_TX_IO_COUNT {
                Some("Transaction I/O count exceeds limit: "@ + decimal(n_in + n_out) + " > "@ + decimal(MAX_TX_IO_COUNT as nat))
            } else if first_output_error(outputs, n_out as int) is Some {
                first_output_error(outputs, n_out as int)
            } else if actual_fee < min_fee {
                Some("Transaction fee "@ + decimal(actual_fee as nat) + " is below minimum relay fee "@ + decimal(min_fee as nat))
            } else if witness.len() > MAX_WITNESS_SIZE {
                Some("Witness data too large: "@ + decimal(witness.len()) + " > "@ + decimal(MAX_WITNESS_SIZE as nat))
            } else {
                first_witness_error(witness, witness.len() as int)
            }
        },
        TransactionModel::Coinbase { version, inputs, outputs, .. } => {
            if version != 1 {
                Some("Invalid coinbase version: "@ + decimal(version as nat))
            } else if inputs.len() != 0 {
                Some("Coinbase transaction should have no inputs"@)
            } else if outputs.len() == 0 {
                Some("Coinbase transaction must have at least one output"@)
            } else {
                first_output_error(outputs, outputs.len() as int)
            }
        },
        TransactionModel::GovernanceProposal { proposal_id, description_hash, proposer_signature, .. } => {
            if is_zero_hash(proposal_id) {
                Some("Governance proposal must have non-zero proposal ID"@)
            } else if is_zero_hash(description_hash) {
                Some("Governance proposal must have non-zero description hash"@)
            } else if proposer_signature.len() != 64 {
                Some("Invalid proposal signature length: "@ + decimal(proposer_signature.len()))
            } else {
                None
            }
        },
        TransactionModel::GovernanceVote { proposal_id, voter_id, voter_signature, .. } => {
            if is_zero_hash(proposal_id) {
                Some("Governance vote must have non-zero proposal ID"@)
            } else if is_zero_hash(voter_id) {
                Some("Governance vote must have non-zero voter ID"@)
            } else if voter_signature.len() != 64 {
                Some("Invalid vote signature length: "@ + decimal(voter_signature.len()))
            } else {
                None
            }
        },
        TransactionModel::MasternodeRegister { collateral_outpoint, operator_public_key, signature, .. } => {
            if is_zero_hash(collateral_outpoint.txid) {
                Some("Masternode registration must have valid collateral outpoint"@)
            } else if is_zero_hash(operator_public_key) {
                Some("Masternode registration must have valid operator public key"@)
            } else if signature.len() != 64 {
                Some("Invalid registration signature length: "@ + decimal(signature.len()))
            } else {
                None
            }
        },
        _ => None,
    }
}

/// Checks the outputs in order, stopping at the first refused.
fn validate_outputs(outputs: &Vec<TxOutput>) -> (r: Result<(), ConsensusError>)
    ensures
        first_output_error(crate::types::outputs_view(outputs@), outputs@.len() as int) is None ==> r is Ok,
        first_output_error(crate::types::outputs_view(outputs@), outputs@.len() as int) matches Some(m)
            ==> (r matches Err(ConsensusError::BlockValidation(e)) && e@ == m),
{
    let ghost outs = crate::types::outputs_view(outputs@);
    let mut i: usize = 0;
    while i < outputs.len()
        invariant
            i <= outputs@.len(),
            outs == crate::types::outputs_view(outputs@),
            first_output_error(outs, i as int) is None,
        decreases outputs@.len() - i,
    {
        assert(outs[i as int] == outputs@[i as int]@);
        match validate_tx_output(&outputs[i]) {
            Ok(()) => {},
            Err(e) => {
                proof {
                    lemma_first_output_error_rest(outs, i as int + 1, outputs@.len() as int);
                }
                return Err(e);
            },
        }
        i = i + 1;
    }
    Ok(())
}

/// Once some output among the first `k` is refused, the first refused stays first.
pub proof fn lemma_first_output_error_rest(outs: Seq<TxOutputModel>, k: int, n: int)
    requires
        0 <= k <= n,
        first_output_error(outs, k) is Some,
    ensures
        first_output_error(outs, n) == first_output_error(outs, k),
    decreases n - k,
{
    if k < n {
        lemma_first_output_error_rest(outs, k, n - 1);
    }
}

/// Once some input among the first `k` is refused, the first refused stays first.
pub proof fn lemma_first_input_error_rest(ins: Seq<TxInputModel>, utxos: Map<OutPoint, UtxoModel>, height: u64, k: int, n: int)
    requires
        0 <= k <= n,
        first_input_error(ins, utxos, height, k) is Some,
    ensures
        first_input_error(ins, utxos, height, n) == first_input_error(ins, utxos, height, k),
    decreases n - k,
{
    if k < n {
        lemma_first_input_error_rest(ins, utxos, height, k, n - 1);
    }
}

/// Once some witness item among the first `k` is too large, the first stays first.
pub proof fn lemma_first_witness_error_rest(w: Seq<Seq<u8>>, k: int, n: int)
    requires
        0 <= k <= n,
        first_witness_error(w, k) is Some,
    ensures
        first_witness_error(w, n) == first_witness_error(w, k),
    decreases n - k,
{
    if k < n {
        lemma_first_witness_error_rest(w, k, n - 1);
    }
}

/// A prefix of the inputs spends no more than all of them.
pub proof fn lemma_input_sum_prefix(ins: Seq<TxInputModel>, utxos: Map<OutPoint, UtxoModel>, k: int, n: int)
    requires
        0 <= k <= n,
    ensures
        input_value_sum(ins, utxos, k) <= input_value_sum(ins, utxos, n),
    decreases n - k,
{
    if k < n {
        lemma_input_sum_prefix(ins, utxos, k, n - 1);
    }
}

/// Outputs within the money supply sum to no more than that many times the supply.
pub proof fn lemma_output_sum_bound(outs: Seq<TxOutputModel>, n: int)
    requires
        0 <= n <= outs.len(),
        first_output_error(outs, n) is None,
    ensures
        output_value_sum(outs, n) <= n * MAX_MONEY,
    decreases n,
{
    if n > 0 {
        lemma_output_sum_bound(outs, n - 1);
    }
}

/// Checks a transaction, as `tx_error` states.
#[verifier::loop_isolation(false)]
pub fn validate_transaction(
    transaction: &Transaction,
    is_coinbase: bool,
    utxo_set: &UtxoSet,
    current_height: u64,
    min_relay_fee_per_byte: u64,
) -> (r: Result<(), ConsensusError>)
    requires
        fee_sums_fit(transaction@, utxo_set@, min_relay_fee_per_byte),
    ensures
        tx_error(transaction@, is_coinbase, utxo_set@, current_height, min_relay_fee_per_byte) is None ==> r is Ok,
        tx_error(transaction@, is_coinbase, utxo_set@, current_height, min_relay_fee_per_byte) matches Some(m)
            ==> (r matches Err(ConsensusError::BlockValidation(e)) && e@ == m),
{
    match transaction {
        Transaction::Standard { version, inputs, outputs, witness, .. } => {
            let ghost ins = crate::types::inputs_view(inputs@);
            let ghost outs = crate::types::outputs_view(outputs@);
            let ghost utxos = utxo_set@;
            if *version != 1 {
                return Err(ConsensusError::BlockValidation(text_then_number("Invalid transaction version: ", *version as u64)));
            }
            if !is_coinbase {
                if inputs.len() == 0 {
                    return Err(ConsensusError::BlockValidation(message("Non-coinbase transaction must have at least one input")));
                }
                let mut i: usize = 0;
                while i < inputs.len()
                    invariant
                        i <= inputs@.len(),
                        ins == crate::types::inputs_view(inputs@),
                        utxos == utxo_set@,
                        first_input_error(ins, utxos, current_height, i as int) is None,
                    decreases inputs@.len() - i,
                {
                    assert(ins[i as int] == inputs@[i as int]@);
                    match validate_tx_input(&inputs[i], utxo_set, current_height) {
                        Ok(()) => {},
                        Err(e) => {
                            proof {
                                lemma_first_input_error_rest(ins, utxos, current_height, i as int + 1, inputs@.len() as int);
                            }
                            return Err(e);
                        },
                    }
                    i = i + 1;
                }
            }
            if outputs.len() == 0 {
                return Err(ConsensusError::BlockValidation(message("Transaction must have at least one output")));
            }
            if inputs.len() > MAX_TX_IO_COUNT || outputs.len() > MAX_TX_IO_COUNT - inputs.len() {
                let mut m = message("Transaction I/O count exceeds limit: ");
                crate::text::push_wide_decimal(&mut m, inputs.len() as u128 + outputs.len() as u128);
                crate::text::push_text(&mut m, " > ");
                push_decimal(&mut m, MAX_TX_IO_COUNT as u64);
                return Err(ConsensusError::BlockValidation(m));
            }
            match validate_outputs(outputs) {
                Ok(()) => {},
                Err(e) => {
                    return Err(e);
                },
            }
            let mut total_input_value: u64 = 0;
            let mut i: usize = 0;
            while i < inputs.len()
                invariant
                    i <= inputs@.len(),
                    ins == crate::types::inputs_view(inputs@),
                    utxos == utxo_set@,
                    input_value_sum(ins, utxos, ins.len() as int) <= u64::MAX,
                    total_input_value == input_value_sum(ins, utxos, i as int),
                decreases inputs@.len() - i,
            {
                proof {
                    lemma_input_sum_prefix(ins, utxos, i as int + 1, ins.len() as int);
                }
                assert(ins[i as int].previous_output == inputs@[i as int].previous_output);
                let value = match utxo_set.get_utxo(&inputs[i].previous_output) {
                    Some(u) => u.output.value,
                    None => 0,
                };
                total_input_value = total_input_value + value;
                i = i + 1;
            }
            let mut total_output_value: u64 = 0;
            let mut j: usize = 0;
            proof {
                lemma_output_sum_bound(outs, outs.len() as int);
            }
            while j < outputs.len()
                invariant
                    j <= outputs@.len() <= MAX_TX_IO_COUNT,
                    outs == crate::types::outputs_view(outputs@),
                    first_output_error(outs, outs.len() as int) is None,
                    total_output_value == output_value_sum(outs, j as int),
                decreases outputs@.len() - j,
            {
                proof {
                    lemma_first_output_error_prefix(outs, j as int, outs.len() as int);
                    lemma_first_output_error_prefix(outs, j as int + 1, outs.len() as int);
                    lemma_output_sum_bound(outs, j as int);
                    lemma_output_sum_bound(outs, j as int + 1);
                }
                assert(outs[j as int].value == outputs@[j as int].value);
                total_output_value = total_output_value + outputs[j].value;
                j = j + 1;
            }
            let actual_fee = if total_input_value >= total_output_value { total_input_value - total_output_value } else { 0 };
            let tx_size = estimate_transaction_size(inputs.len(), outputs.len());
            let min_relay_fee = min_relay_fee_per_byte * (tx_size as u64);
            if actual_fee < min_relay_fee {
                return Err(ConsensusError::BlockValidation(text_numbers(
                    "Transaction fee ",
                    actual_fee,
                    " is below minimum relay fee ",
                    min_relay_fee,
                )));
            }
            if witness.len() > 0 {
                if witness.len() > MAX_WITNESS_SIZE {
                    return Err(ConsensusError::BlockValidation(text_numbers(
                        "Witness data too large: ",
                        witness.len() as u64,
                        " > ",
                        MAX_WITNESS_SIZE as u64,
                    )));
                }
                let ghost w = crate::types::byte_lists(witness@);
                let mut k: usize = 0;
                while k < witness.len()
                    invariant
                        k <= witness@.len(),
                        w == crate::types::byte_lists(witness@),
                        first_witness_error(w, k as int) is None,
                    decreases witness@.len() - k,
                {
                    assert(w[k as int] == witness@[k as int]@);
                    if witness[k].len() > MAX_WITNESS_ITEM_BYTES {
                        proof {
                            lemma_first_witness_error_rest(w, k as int + 1, witness@.len() as int);
                        }
                        return Err(ConsensusError::BlockValidation(text_numbers_text(
                            "Witness element ",
                            k as u64,
                            " too large: ",
                            witness[k].len() as u64,
                            " > 520",
                        )));
                    }
                    k = k + 1;
                }
            }
            Ok(())
        },
        Transaction::Coinbase { version, inputs, outputs, .. } => {
            if *version != 1 {
                return Err(ConsensusError::BlockValidation(text_then_number("Invalid coinbase version: ", *version as u64)));
            }
            if inputs.len() != 0 {
                return Err(ConsensusError::BlockValidation(message("Coinbase transaction should have no inputs")));
            }
            if outputs.len() == 0 {
                return Err(ConsensusError::BlockValidation(message("Coinbase transaction must have at least one output")));
            }
            validate_outputs(outputs)
        },
        Transaction::GovernanceProposal(proposal) => {
            if hash_is_zero(&proposal.proposal_id) {
                return Err(ConsensusError::BlockValidation(message("Governance proposal must have non-zero proposal ID")));
            }
            if hash_is_zero(&proposal.description_hash) {
                return Err(ConsensusError::BlockValidation(message("Governance proposal must have non-zero description hash")));
            }
            if proposal.proposer_signature.len() != 64 {
                return Err(ConsensusError::BlockValidation(text_then_number(
                    "Invalid proposal signature length: ",
                    proposal.proposer_signature.len() as u64,
                )));
            }
            Ok(())
        },
        Transaction::GovernanceVote(vote) => {
            if hash_is_zero(&vote.proposal_id) {
                return Err(ConsensusError::BlockValidation(message("Governance vote must have non-zero proposal ID")));
            }
            if hash_is_zero(&vote.voter_id) {
                return Err(ConsensusError::BlockValidation(message("Governance vote must have non-zero voter ID")));
            }
            if vote.voter_signature.len() != 64 {
                return Err(ConsensusError::BlockValidation(text_then_number(
                    "Invalid vote signature length: ",
                    vote.voter_signature.len() as u64,
                )));
            }
            Ok(())
        },
        Transaction::MasternodeRegister { masternode_identity, signature, .. } => {
            if hash_is_zero(&masternode_identity.collateral_outpoint.txid) {
                return Err(ConsensusError::BlockValidation(message("Masternode registration must have valid collateral outpoint")));
            }
            if hash_is_zero(&masternode_identity.operator_public_key) {
                return Err(ConsensusError::BlockValidation(message("Masternode registration must have valid operator public key")));
            }
            if signature.len() != 64 {
                return Err(ConsensusError::BlockValidation(text_then_number(
                    "Invalid registration signature length: ",
                    signature.len() as u64,
                )));
            }
            Ok(())
        },
        _ => Ok(()),
    }
}

/// No output among a prefix is refused when none among the whole is.
pub proof fn lemma_first_output_error_prefix(outs: Seq<TxOutputModel>, k: int, n: int)
    requires
        0 <= k <= n,
        first_output_error(outs, n) is None,
    ensures
        first_output_error(outs, k) is None,
    decreases n - k,
{
    if k < n {
        lemma_first_output_error_prefix(outs, k, n - 1);
    }
}

/// The first transaction among the first `n` whose txid an earlier one has, if any.
pub open spec fn first_duplicate(ids: Seq<[u8; 32]>, n: int) -> Option<[u8; 32]>
    decreases n,
{
    if n <= 0 {
        None
    } else {
        match first_duplicate(ids, n - 1) {
            Some(d) => Some(d),
            None => if ids.take(n - 1).contains(ids[n - 1]) {
                Some(ids[n - 1])
            } else {
                None
            },
        }
    }
}

/// The error of the first of the first `n` transactions of a block that is refused, the
/// first being checked as the coinbase.
pub open spec fn first_tx_error(txs: Seq<TransactionModel>, utxos: Map<OutPoint, UtxoModel>, height: u64, fee_per_byte: u64, n: int) -> Option<Seq<char>>
    decreases n,
{
    if n <= 0 {
        None
    } else {
        match first_tx_error(txs, utxos, height, fee_per_byte, n - 1) {
            Some(e) => Some(e),
            None => tx_error(txs[n - 1], n - 1 == 0, utxos, height, fee_per_byte),
        }
    }
}

/// Why the transactions of a block are refused, if they are: none at all, a first one
/// that is not a coinbase, a refused transaction, or a txid that occurs twice.
pub open spec fn block_txs_error(txs: Seq<TransactionModel>, utxos: Map<OutPoint, UtxoModel>, height: u64, fee_per_byte: u64) -> Option<Seq<char>> {
    let ids = txs.map_values(|t: TransactionModel| spec_txid(t));
    if txs.len() == 0 {
        Some("Block must contain at least one transaction"@)
    } else if !(txs[0] is Coinbase) {
        Some("First transaction in block must be coinbase"@)
    } else if first_tx_error(txs, utxos, height, fee_per_byte, txs.len() as int) is Some {
        first_tx_error(txs, utxos, height, fee_per_byte, txs.len() as int)
    } else if first_duplicate(ids, ids.len() as int) is Some {
        Some("Duplicate transaction found: "@ + byte_list(first_duplicate(ids, ids.len() as int)->0@))
    } else {
        None
    }
}

pub proof fn lemma_first_tx_error_rest(txs: Seq<TransactionModel>, utxos: Map<OutPoint, UtxoModel>, height: u64, fee: u64, k: int, n: int)
    requires
        0 <= k <= n,
        first_tx_error(txs, utxos, height, fee, k) is Some,
    ensures
        first_tx_error(txs, utxos, height, fee, n) == first_tx_error(txs, utxos, height, fee, k),
    decreases n - k,
{
    if k < n {
        lemma_first_tx_error_rest(txs, utxos, height, fee, k, n - 1);
    }
}

pub proof fn lemma_first_duplicate_rest(ids: Seq<[u8; 32]>, k: int, n: int)
    requires
        0 <= k <= n,
        first_duplicate(ids, k) is Some,
    ensures
        first_duplicate(ids, n) == first_duplicate(ids, k),
    decreases n - k,
{
    if k < n {
        lemma_first_duplicate_rest(ids, k, n - 1);
    }
}

/// Checks the transactions of a block, as `block_txs_error` states.
#[verifier::loop_isolation(false)]
pub fn validate_block_transactions(
    transactions: &Vec<Transaction>,
    utxo_set: &UtxoSet,
    current_height: u64,
    min_relay_fee_per_byte: u64,
) -> (r: Result<(), ConsensusError>)
    requires
        forall|i: int| 0 <= i < transactions@.len() ==> fee_sums_fit(#[trigger] transactions@[i]@, utxo_set@, min_relay_fee_per_byte),
    ensures
        ({
            let txs = transactions@.map_values(|t: Transaction| t@);
            &&& block_txs_error(txs, utxo_set@, current_height, min_relay_fee_per_byte) is None ==> r is Ok
            &&& block_txs_error(txs, utxo_set@, current_height, min_relay_fee_per_byte) matches Some(m)
                ==> (r matches Err(ConsensusError::BlockValidation(e)) && e@ == m)
        }),
{
    let ghost txs = transactions@.map_values(|t: Transaction| t@);
    let ghost ids = txs.map_values(|t: TransactionModel| spec_txid(t));
    if transactions.len() == 0 {
        return Err(ConsensusError::BlockValidation(message("Block must contain at least one transaction")));
    }
    assert(txs[0] == transactions@[0]@);
    match &transactions[0] {
        Transaction::Coinbase { .. } => {},
        _ => {
            return Err(ConsensusError::BlockValidation(message("First transaction in block must be coinbase")));
        },
    }
    let mut i: usize = 0;
    while i < transactions.len()
        invariant
            i <= transactions@.len(),
            first_tx_error(txs, utxo_set@, current_height, min_relay_fee_per_byte, i as int) is None,
        decreases transactions@.len() - i,
    {
        assert(txs[i as int] == transactions@[i as int]@);
        match validate_transaction(&transactions[i], i == 0, utxo_set, current_height, min_relay_fee_per_byte) {
            Ok(()) => {},
            Err(e) => {
                proof {
                    lemma_first_tx_error_rest(txs, utxo_set@, current_height, min_relay_fee_per_byte, i as int + 1, txs.len() as int);
                }
                return Err(e);
            },
        }
        i = i + 1;
    }
    let mut seen: Vec<[u8; 32]> = Vec::new();
    let mut j: usize = 0;
    while j < transactions.len()
        invariant
            j <= transactions@.len(),
            seen@ == ids.take(j as int),
            first_duplicate(ids, j as int) is None,
        decreases transactions@.len() - j,
    {
        let id = transactions[j].txid();
        assert(id == ids[j as int]);
        let mut k: usize = 0;
        let mut found = false;
        while k < seen.len()
            invariant
                k <= seen@.len(),
                found == exists|q: int| 0 <= q < k && seen@[q] == id,
            decreases seen@.len() - k,
        {
            if hash_eq(&seen[k], &id) {
                found = true;
            }
            k = k + 1;
        }
        if found {
            proof {
                assert(ids.take(j as int).contains(ids[j as int]));
                lemma_first_duplicate_rest(ids, j as int + 1, ids.len() as int);
            }
            let mut m = message("Duplicate transaction found: ");
            push_byte_list(&mut m, id.as_slice());
            return Err(ConsensusError::BlockValidation(m));
        }
        seen.push(id);
        assert(ids.take(j as int + 1) =~= ids.take(j as int).push(id));
        j = j + 1;
    }
    Ok(())
}

/// The tickets that vote on each block.
pub const VOTERS_PER_BLOCK: usize = 5;

/// The valid votes a block needs.
pub const MIN_VALID_VOTES_REQUIRED: usize = 3;

/// What becomes of one stake vote.
pub enum VoteCheck {
    /// It counts towards the quorum.
    Valid,
    /// It is passed over.
    Ignored,
    /// Its signature bytes do not decode: the block is refused.
    BadSignatureFormat,
    /// Its ticket's public key does not decode: the block is refused.
    BadPublicKey,
}

/// The message a stake vote signs: the ticket id, the block hash and the vote byte.
pub open spec fn vote_message(v: TicketVote) -> Seq<u8> {
    v.ticket_id@ + v.block_hash@ + seq![v.vote]
}

/// What becomes of a vote on the block after `prev_hash`, given the live tickets: it is
/// passed over when its ticket id is zero, it names another block, its vote is above 2,
/// its signature is not 64 bytes, its ticket is not live or its signature does not verify.
pub open spec fn vote_check(v: TicketVote, prev_hash: [u8; 32], tickets: Map<[u8; 32], TicketModel>) -> VoteCheck {
    if is_zero_hash(v.ticket_id) || v.block_hash != prev_hash || v.vote > 2 || v.signature@.len() != 64
        || !tickets.dom().contains(v.ticket_id) {
        VoteCheck::Ignored
    } else if !signature_decodes(v.signature@) {
        VoteCheck::BadSignatureFormat
    } else if !(tickets[v.ticket_id].pubkey.len() == 32 && ed25519_point_decompresses(tickets[v.ticket_id].pubkey)) {
        VoteCheck::BadPublicKey
    } else if !ed25519_verifies(tickets[v.ticket_id].pubkey, vote_message(v), v.signature@) {
        VoteCheck::Ignored
    } else {
        VoteCheck::Valid
    }
}

/// The valid votes among the first `n`.
pub open spec fn valid_votes(votes: Seq<TicketVote>, prev_hash: [u8; 32], tickets: Map<[u8; 32], TicketModel>, n: int) -> nat
    decreases n,
{
    if n <= 0 {
        0
    } else {
        valid_votes(votes, prev_hash, tickets, n - 1) + if vote_check(votes[n - 1], prev_hash, tickets) is Valid { 1nat } else { 0nat }
    }
}

/// No vote among the first `n` makes the block refused outright.
pub open spec fn votes_well_formed(votes: Seq<TicketVote>, prev_hash: [u8; 32], tickets: Map<[u8; 32], TicketModel>, n: int) -> bool {
    forall|i: int| 0 <= i < n ==> !(#[trigger] vote_check(votes[i], prev_hash, tickets) is BadSignatureFormat)
        && !(vote_check(votes[i], prev_hash, tickets) is BadPublicKey)
}

proof fn lemma_valid_votes_bound(votes: Seq<TicketVote>, prev_hash: [u8; 32], tickets: Map<[u8; 32], TicketModel>, n: int)
    requires
        n >= 0,
    ensures
        valid_votes(votes, prev_hash, tickets, n) <= n,
    decreases n,
{
    if n > 0 {
        lemma_valid_votes_bound(votes, prev_hash, tickets, n - 1);
    }
}

/// Checks the stake votes of a block whose header is `header`: exactly five votes, no
/// vote whose signature or ticket key does not decode, and at least three valid votes.
pub fn validate_ticket_votes(ticket_votes: &Vec<TicketVote>, header: &BlockHeader, live_tickets: &LiveTicketsPool) -> (r: Result<(), ConsensusError>)
    ensures
        ticket_votes@.len() != VOTERS_PER_BLOCK ==> (r matches Err(ConsensusError::BlockValidation(m))
            && m@ == "Invalid ticket_votes count: expected 5, got "@ + decimal(ticket_votes@.len())),
        ticket_votes@.len() == VOTERS_PER_BLOCK ==> {
            let prev = header.previous_block_hash;
            let t = live_tickets@;
            &&& (forall|k: int| 0 <= k < 5 && votes_well_formed(ticket_votes@, prev, t, k)
                && #[trigger] vote_check(ticket_votes@[k], prev, t) is BadSignatureFormat
                ==> (r matches Err(ConsensusError::BlockValidation(m)) && m@ == "Invalid signature format for vote "@ + decimal(k as nat)))
            &&& (forall|k: int| 0 <= k < 5 && votes_well_formed(ticket_votes@, prev, t, k)
                && #[trigger] vote_check(ticket_votes@[k], prev, t) is BadPublicKey
                ==> (r matches Err(ConsensusError::BlockValidation(m)) && m@ == "Invalid public key for ticket "@ + hex_text(ticket_votes@[k].ticket_id@)))
            &&& votes_well_formed(ticket_votes@, prev, t, 5) && valid_votes(ticket_votes@, prev, t, 5) < MIN_VALID_VOTES_REQUIRED
                ==> (r matches Err(ConsensusError::BlockValidation(m)) && m@ == "Insufficient valid votes: "@ + decimal(valid_votes(ticket_votes@, prev, t, 5)) + " < 3"@)
            &&& votes_well_formed(ticket_votes@, prev, t, 5) && valid_votes(ticket_votes@, prev, t, 5) >= MIN_VALID_VOTES_REQUIRED ==> r is Ok
        },
{
    if ticket_votes.len() != VOTERS_PER_BLOCK {
        return Err(ConsensusError::BlockValidation(text_then_number("Invalid ticket_votes count: expected 5, got ", ticket_votes.len() as u64)));
    }
    let ghost prev = header.previous_block_hash;
    let ghost t = live_tickets@;
    let mut valid: u64 = 0;
    let mut i: usize = 0;
    while i < ticket_votes.len()
        invariant
            ticket_votes@.len() == 5,
            i <= 5,
            prev == header.previous_block_hash,
            t == live_tickets@,
            votes_well_formed(ticket_votes@, prev, t, i as int),
            valid == valid_votes(ticket_votes@, prev, t, i as int),
        decreases 5 - i,
    {
        proof {
            lemma_valid_votes_bound(ticket_votes@, prev, t, i as int);
        }
        let vote = &ticket_votes[i];
        let ghost check = vote_check(*vote, prev, t);
        if hash_is_zero(&vote.ticket_id) || !hash_eq(&vote.block_hash, &header.previous_block_hash) || vote.vote > 2
            || vote.signature.len() != 64 {
            i = i + 1;
            assert(votes_well_formed(ticket_votes@, prev, t, i as int));
            continue;
        }
        match live_tickets.get_ticket(&vote.ticket_id) {
            Some(ticket) => {
                let signature = match decode_signature(vote.signature.as_slice()) {
                    Some(sig) => sig,
                    None => {
                        return Err(ConsensusError::BlockValidation(text_then_number("Invalid signature format for vote ", i as u64)));
                    },
                };
                let mut message_bytes: Vec<u8> = Vec::new();
                extend_bytes(&mut message_bytes, vote.ticket_id.as_slice());
                extend_bytes(&mut message_bytes, vote.block_hash.as_slice());
                message_bytes.push(vote.vote);
                assert(message_bytes@ =~= vote_message(*vote));
                let public_key = match decode_public_key(ticket.pubkey.as_slice()) {
                    Some(k) => k,
                    None => {
                        let mut m = message("Invalid public key for ticket ");
                        let h = hex_encode(vote.ticket_id.as_slice());
                        push_text(&mut m, h.as_str());
                        return Err(ConsensusError::BlockValidation(m));
                    },
                };
                if !ed25519_verify(&public_key, message_bytes.as_slice(), &signature) {
                    i = i + 1;
                    assert(votes_well_formed(ticket_votes@, prev, t, i as int));
                    continue;
                }
            },
            None => {
                i = i + 1;
                assert(votes_well_formed(ticket_votes@, prev, t, i as int));
                continue;
            },
        }
        if live_tickets.get_ticket(&vote.ticket_id).is_none() {
            i = i + 1;
            continue;
        }
        assert(check is Valid);
        valid = valid + 1;
        i = i + 1;
        assert(votes_well_formed(ticket_votes@, prev, t, i as int));
    }
    if valid < MIN_VALID_VOTES_REQUIRED as u64 {
        return Err(ConsensusError::BlockValidation(text_number("Insufficient valid votes: ", valid, " < 3")));
    }
    Ok(())
}

/// The parent of two Merkle tree nodes: the BLAKE3 digest of the left followed by the
/// right.
pub open spec fn merkle_parent(a: [u8; 32], b: [u8; 32]) -> [u8; 32] {
    blake3_digest(a@ + b@)
}

/// The next level of a Merkle tree: nodes paired in order, a last unpaired node paired
/// with itself.
pub open spec fn merkle_level(s: Seq<[u8; 32]>) -> Seq<[u8; 32]> {
    Seq::new(
        ((s.len() + 1) / 2) as nat,
        |i: int| if 2 * i + 1 < s.len() { merkle_parent(s[2 * i], s[2 * i + 1]) } else { merkle_parent(s[2 * i], s[2 * i]) },
    )
}

/// The root of the Merkle tree over a non-empty list of leaves.
pub open spec fn merkle_root_of(s: Seq<[u8; 32]>) -> [u8; 32]
    decreases s.len(),
{
    if s.len() <= 1 {
        s[0]
    } else {
        merkle_root_of(merkle_level(s))
    }
}

/// The Merkle root of a list of transactions: the tree over their txids.
pub open spec fn tx_merkle_root(txs: Seq<TransactionModel>) -> [u8; 32] {
    merkle_root_of(txs.map_values(|t: TransactionModel| spec_txid(t)))
}

/// The Merkle root of a block's transactions; there is none for an empty list.
pub fn calculate_merkle_root(transactions: &Vec<Transaction>) -> (r: Result<[u8; 32], ConsensusError>)
    ensures
        transactions@.len() == 0 ==> (r matches Err(ConsensusError::BlockValidation(m))
            && m@ == "Cannot calculate merkle root for empty transaction list"@),
        transactions@.len() > 0 ==> r == Ok::<[u8; 32], ConsensusError>(tx_merkle_root(transactions@.map_values(|t: Transaction| t@))),
{
    if transactions.len() == 0 {
        return Err(ConsensusError::BlockValidation(message("Cannot calculate merkle root for empty transaction list")));
    }
    let ghost txs = transactions@.map_values(|t: Transaction| t@);
    let ghost leaves = txs.map_values(|t: TransactionModel| spec_txid(t));
    let mut hashes: Vec<[u8; 32]> = Vec::new();
    let mut i: usize = 0;
    while i < transactions.len()
        invariant
            i <= transactions@.len(),
            txs == transactions@.map_values(|t: Transaction| t@),
            leaves == txs.map_values(|t: TransactionModel| spec_txid(t)),
            hashes@ == leaves.take(i as int),
        decreases transactions@.len() - i,
    {
        let id = transactions[i].txid();
        assert(txs[i as int] == transactions@[i as int]@);
        hashes.push(id);
        assert(hashes@ =~= leaves.take(i as int + 1));
        i = i + 1;
    }
    assert(hashes@ =~= leaves);
    while hashes.len() > 1
        invariant
            hashes@.len() >= 1,
            merkle_root_of(hashes@) == merkle_root_of(leaves),
        decreases hashes@.len(),
    {
        let n = hashes.len();
        let ghost level = merkle_level(hashes@);
        let mut next: Vec<[u8; 32]> = Vec::new();
        let half = n / 2 + n % 2;
        let mut k: usize = 0;
        while k < half
            invariant
                n == hashes@.len(),
                half == (n + 1) / 2,
                k <= half,
                level == merkle_level(hashes@),
                next@ == level.take(k as int),
            decreases half - k,
        {
            let j = 2 * k;
            let a = hashes[j];
            let b = if j + 1 < n { hashes[j + 1] } else { hashes[j] };
            let mut buf: Vec<u8> = Vec::new();
            extend_bytes(&mut buf, a.as_slice());
            extend_bytes(&mut buf, b.as_slice());
            let parent = blake3_hash(buf.as_slice());
            assert(parent == level[k as int]);
            next.push(parent);
            assert(next@ =~= level.take(k as int + 1));
            k = k + 1;
        }
        assert(next@ =~= level);
        hashes = next;
    }
    Ok(hashes[0])
}

/// Checks that a block header's Merkle root is that of its transactions.
pub fn validate_merkle_root(block: &Block) -> (r: Result<(), ConsensusError>)
    ensures
        block.transactions@.len() == 0 ==> (r matches Err(ConsensusError::BlockValidation(m))
            && m@ == "Cannot calculate merkle root for empty transaction list"@),
        block.transactions@.len() > 0 && block.header.merkle_root == tx_merkle_root(block.transactions@.map_values(|t: Transaction| t@))
            ==> r is Ok,
        block.transactions@.len() > 0 && block.header.merkle_root != tx_merkle_root(block.transactions@.map_values(|t: Transaction| t@))
            ==> (r matches Err(ConsensusError::BlockValidation(m)) && m@ == "Merkle root mismatch: expected "@
                + byte_list(block.header.merkle_root@) + ", calculated "@ + byte_list(tx_merkle_root(block.transactions@.map_values(|t: Transaction| t@))@)),
{
    let calculated = match calculate_merkle_root(&block.transactions) {
        Ok(root) => root,
        Err(e) => {
            return Err(e);
        },
    };
    if !hash_eq(&block.header.merkle_root, &calculated) {
        return Err(ConsensusError::BlockValidation(text_byte_lists(
            "Merkle root mismatch: expected ",
            block.header.merkle_root.as_slice(),
            ", calculated ",
            calculated.as_slice(),
        )));
    }
    Ok(())
}

/// The largest block at a chain height: 1 MB, 2 MB above height 100 000, 4 MB above
/// height 500 000.
pub open spec fn max_block_size_at(height: u64) -> nat {
    if height > 500_000 {
        4_000_000
    } else if height > 100_000 {
        2_000_000
    } else {
        1_000_000
    }
}

/// Checks that a block's encoding fits the size limit at the current chain height.
pub fn validate_block_size(block: &Block, current_height: u64) -> (r: Result<(), ConsensusError>)
    ensures
        enc_block(*block).len() <= max_block_size_at(current_height) ==> r is Ok,
        enc_block(*block).len() > max_block_size_at(current_height) ==> (r matches Err(ConsensusError::BlockValidation(m))
            && m@ == "Block size exceeds limit: "@ + decimal(enc_block(*block).len()) + " > "@ + decimal(max_block_size_at(current_height))),
{
    let mut max_block_size: usize = 1_000_000;
    if current_height > 100_000 {
        max_block_size = 2_000_000;
    }
    if current_height > 500_000 {
        max_block_size = 4_000_000;
    }
    let block_size = encode_block(block).len();
    if block_size > max_block_size {
        return Err(ConsensusError::BlockValidation(text_numbers(
            "Block size exceeds limit: ",
            block_size as u64,
            " > ",
            max_block_size as u64,
        )));
    }
    Ok(())
}

/// The reward of the coinbase in a simulated block: 50 coins of 100 000 000 units each.
pub const SIMULATED_BLOCK_REWARD: u64 = 5_000_000_000;

/// The compact target a simulated header carries.
pub const SIMULATED_DIFFICULTY_TARGET: u32 = 0x1d00ffff;

/// Whether `h` is the header simulated at `height` with the clock at `now`, over a store
/// whose block hashes are `hashes`: version 1, zero roots and nonce, the fixed target, and
/// as previous hash the stored hash of the block below (zero at height zero, or when the
/// store has none).
pub open spec fn is_simulated_header(h: BlockHeader, hashes: Map<u64, [u8; 32]>, height: u64, now: u64) -> bool {
    &&& h.version == 1
    &&& h.height == height
    &&& (height == 0 || !hashes.dom().contains((height - 1) as u64)) ==> is_zero_hash(h.previous_block_hash)
    &&& (height > 0 && hashes.dom().contains((height - 1) as u64)) ==> h.previous_block_hash == hashes[(height - 1) as u64]
    &&& is_zero_hash(h.merkle_root)
    &&& is_zero_hash(h.state_root)
    &&& h.timestamp == now
    &&& h.difficulty_target == SIMULATED_DIFFICULTY_TARGET
    &&& h.nonce == 0
    &&& h.bits == 0
}

/// A header for `height`, as `is_simulated_header` states, with the clock at `now`.
pub fn create_simulated_header(state: &BlockchainState, height: u64, now: u64) -> (r: Result<BlockHeader, ConsensusError>)
    ensures
        r matches Ok(h) && is_simulated_header(h, state.hashes(), height, now),
{
    let prev_hash = if height == 0 {
        [0u8; 32]
    } else {
        match state.get_block_hash(height - 1) {
            Ok(Some(h)) => h,
            Ok(None) => [0u8; 32],
            Err(e) => {
                return Err(e);
            },
        }
    };
    let header = BlockHeader {
        version: 1,
        previous_block_hash: prev_hash,
        merkle_root: [0u8; 32],
        timestamp: now,
        bits: 0,
        nonce: 0,
        height,
        difficulty_target: SIMULATED_DIFFICULTY_TARGET,
        state_root: [0u8; 32],
    };
    assert(is_zero_hash(header.merkle_root));
    assert(is_zero_hash(header.state_root));
    assert((height == 0 || !state.hashes().dom().contains((height - 1) as u64)) ==> is_zero_hash(header.previous_block_hash));
    Ok(header)
}

/// A block for `height` with the clock at `now`: the simulated header, no stake votes, and
/// one coinbase without inputs paying the simulated reward to an empty script.
pub fn create_simulated_block(state: &BlockchainState, height: u64, now: u64) -> (r: Result<Block, ConsensusError>)
    ensures
        r matches Ok(b) && {
            &&& is_simulated_header(b.header, state.hashes(), height, now)
            &&& b.ticket_votes@.len() == 0
            &&& b.transactions@.len() == 1
            &&& b.transactions@[0]@ == TransactionModel::Coinbase {
                version: 1,
                inputs: Seq::empty(),
                outputs: seq![TxOutputModel { value: SIMULATED_BLOCK_REWARD, script_pubkey: Seq::empty(), memo: None }],
                lock_time: 0,
                witness: Seq::empty(),
            }
        },
{
    let header = match create_simulated_header(state, height, now) {
        Ok(h) => h,
        Err(e) => {
            return Err(e);
        },
    };
    let coinbase_tx = Transaction::Coinbase {
        version: 1,
        inputs: Vec::new(),
        outputs: vec![TxOutput { value: SIMULATED_BLOCK_REWARD, script_pubkey: Vec::new(), memo: None }],
        lock_time: 0,
        witness: Vec::new(),
    };
    let b = Block { header, ticket_votes: Vec::new(), transactions: vec![coinbase_tx] };
    proof {
        assert(b.transactions@[0]@ == TransactionModel::Coinbase {
            version: 1,
            inputs: Seq::empty(),
            outputs: seq![TxOutputModel { value: SIMULATED_BLOCK_REWARD, script_pubkey: Seq::empty(), memo: None }],
            lock_time: 0,
            witness: Seq::empty(),
        }) by {
            assert(inputs_view(Seq::<TxInput>::empty()) =~= Seq::<TxInputModel>::empty());
            let outs = b.transactions@[0].spec_outputs();
            assert(outputs_view(outs) =~= seq![TxOutputModel { value: SIMULATED_BLOCK_REWARD, script_pubkey: Seq::empty(), memo: None }]);
            assert(byte_lists(Seq::<Vec<u8>>::empty()) =~= Seq::<Seq<u8>>::empty());
        }
    }
    Ok(b)
}

} // verus!
