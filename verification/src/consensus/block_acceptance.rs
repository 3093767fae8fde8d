//! Accepting a block at the tip of the chain: the fork, difficulty and proof-of-work checks
//! against the latest block, the input and script checks of every transaction after the
//! coinbase, the coinbase held to the proof-of-work reward and paid it, the stake votes
//! checked, and then the block applied to the outputs, stored, taken out of the mempool,
//! its masternodes registered, its tickets taken in, and made the tip.
use vstd::prelude::*;
use crate::bytes::hash_eq;
use crate::consensus::chain::{block_subsidy, known_input_sum, lemma_known_input_sum_prefix, lemma_outputs_sum_prefix, outputs_sum, pos_block_error, scripts_valid, Blockchain};
use crate::consensus::chain_checks::{own_target_met, stored_block_at, stored_height_or_zero};
use crate::consensus::error::{message, ConsensusError, ErrorModel};
use crate::consensus::block_processing::registrations_after;
use crate::assoc::AssocList;
use crate::consensus::governance_processing::{canonical_view, proposal_error, same_but_proposals, vote_error, voter_record};
use crate::consensus::governance_state::{with_proposal, with_vote, ProposalEntry};
use crate::governance::MasternodeStatus;
use crate::consensus::pos::{block_txs, purchase_error, purchases_ok, voters_selected, with_purchases};
use crate::consensus::reorg::{registered_from, used_ticket_ids};
use crate::mempool::Mempool;
use crate::consensus::pow::verify_pow;
use crate::consensus::utxo_set::{add_all, add_outputs, apply_block_spec, input_totals_fit, inputs_valid, spend_all, spend_inputs, UtxoSet};
use crate::encoding::{spec_header_hash, spec_txid};
use crate::script::engine::{height_in_bounds, ScriptEngine};
use crate::script::validation::MAX_COUNTED_INPUTS;
use crate::text::{byte_list, decimal, push_byte_list, text_byte_lists, text_numbers};
use crate::types::{outputs_view, TicketModel, VoteTx, Block, BlockHeader, BlockModel, OutPoint, Transaction, TransactionModel, TxInput, TxOutput, TxOutputModel, UtxoModel};
use crate::uint::u256_from_u64;

verus! {

/// Inserts `x` into a list after every element from the end whose fee is above `x`'s: into
/// a list ordered by fee, after every element of a fee at most `x`'s.
pub open spec fn insert_by_fee(s: Seq<Transaction>, x: Transaction) -> Seq<Transaction>
    decreases s.len(),
{
    if s.len() == 0 {
        seq![x]
    } else if s.last().spec_fee() <= x.spec_fee() {
        s.push(x)
    } else {
        insert_by_fee(s.drop_last(), x).push(s.last())
    }
}

/// A list ordered by fee, lowest first, with transactions of equal fee in the order given.
pub open spec fn sort_by_fee(s: Seq<Transaction>) -> Seq<Transaction>
    decreases s.len(),
{
    if s.len() == 0 {
        s
    } else {
        insert_by_fee(sort_by_fee(s.drop_last()), s.last())
    }
}

/// Inserts `x` as `insert_by_fee` states.
fn insert_by_fee_exec(v: &mut Vec<Transaction>, x: Transaction)
    ensures
        final(v)@ == insert_by_fee(old(v)@, x),
{
    let ghost s = v@;
    let mut j: usize = v.len();
    assert(s.subrange(0, s.len() as int) =~= s);
    assert(insert_by_fee(s, x) =~= insert_by_fee(s.subrange(0, j as int), x) + s.subrange(j as int, s.len() as int));
    while j > 0 && v[j - 1].get_fee() > x.get_fee()
        invariant
            v@ == s,
            j <= s.len(),
            insert_by_fee(s, x) == insert_by_fee(s.subrange(0, j as int), x) + s.subrange(j as int, s.len() as int),
        decreases j,
    {
        let ghost t = s.subrange(0, j as int);
        assert(t.drop_last() =~= s.subrange(0, j - 1));
        assert(t.last() == s[j - 1]);
        assert(insert_by_fee(t, x) == insert_by_fee(s.subrange(0, j - 1), x).push(s[j - 1]));
        assert(insert_by_fee(s.subrange(0, j - 1), x).push(s[j - 1]) + s.subrange(j as int, s.len() as int)
            =~= insert_by_fee(s.subrange(0, j - 1), x) + s.subrange(j - 1, s.len() as int));
        j = j - 1;
    }
    proof {
        let t = s.subrange(0, j as int);
        if j > 0 {
            assert(t.last() == s[j - 1]);
            assert(insert_by_fee(t, x) == t.push(x));
        } else {
            assert(insert_by_fee(t, x) == seq![x]);
        }
    }
    v.insert(j, x);
    assert(v@ =~= insert_by_fee(s, x));
}

/// The list ordered as `sort_by_fee` states.
fn sort_by_fee_exec(v: Vec<Transaction>) -> (r: Vec<Transaction>)
    ensures
        r@ == sort_by_fee(v@),
{
    let ghost orig = v@;
    let mut src = v;
    let mut r: Vec<Transaction> = Vec::new();
    let ghost mut k: int = 0;
    assert(orig.subrange(0, 0) =~= Seq::<Transaction>::empty());
    assert(orig.subrange(0, orig.len() as int) =~= orig);
    while src.len() > 0
        invariant
            0 <= k <= orig.len(),
            r@ == sort_by_fee(orig.subrange(0, k)),
            src@ == orig.subrange(k, orig.len() as int),
        decreases src@.len(),
    {
        let x = src.remove(0);
        proof {
            let t = orig.subrange(0, k + 1);
            assert(t.drop_last() =~= orig.subrange(0, k));
            assert(t.last() == x);
        }
        insert_by_fee_exec(&mut r, x);
        proof {
            k = k + 1;
        }
        assert(src@ =~= orig.subrange(k, orig.len() as int));
    }
    assert(orig.subrange(0, k) =~= orig);
    r
}

/// The list in reverse order.
fn reversed(v: Vec<Transaction>) -> (r: Vec<Transaction>)
    ensures
        r@ == v@.reverse(),
{
    let ghost orig = v@;
    let mut src = v;
    let mut r: Vec<Transaction> = Vec::new();
    while src.len() > 0
        invariant
            src@.len() <= orig.len(),
            src@ == orig.subrange(0, src@.len() as int),
            r@ == orig.subrange(src@.len() as int, orig.len() as int).reverse(),
        decreases src@.len(),
    {
        let ghost n = src@.len();
        let x = src.pop().unwrap();
        r.push(x);
        assert(r@ =~= orig.subrange(n - 1, orig.len() as int).reverse());
        assert(src@ =~= orig.subrange(0, n - 1));
    }
    assert(orig.subrange(0, orig.len() as int) =~= orig);
    r
}

proof fn lemma_insert_contains(s: Seq<Transaction>, x: Transaction, y: Transaction)
    requires
        insert_by_fee(s, x).contains(y),
    ensures
        y == x || s.contains(y),
    decreases s.len(),
{
    if s.len() > 0 {
        let k = choose|k: int| 0 <= k < insert_by_fee(s, x).len() && insert_by_fee(s, x)[k] == y;
        if s.last().spec_fee() <= x.spec_fee() {
            if k < s.len() {
                assert(s[k] == y);
            }
        } else {
            let a = insert_by_fee(s.drop_last(), x);
            if k < a.len() {
                assert(a[k] == y);
                lemma_insert_contains(s.drop_last(), x, y);
                if s.drop_last().contains(y) {
                    let j = choose|j: int| 0 <= j < s.drop_last().len() && s.drop_last()[j] == y;
                    assert(s[j] == y);
                }
            } else {
                assert(s[s.len() - 1] == y);
            }
        }
    }
}

proof fn lemma_sort_contains(s: Seq<Transaction>, y: Transaction)
    requires
        sort_by_fee(s).contains(y),
    ensures
        s.contains(y),
    decreases s.len(),
{
    if s.len() > 0 {
        lemma_insert_contains(sort_by_fee(s.drop_last()), s.last(), y);
        if y == s.last() {
            assert(s[s.len() - 1] == y);
        } else {
            lemma_sort_contains(s.drop_last(), y);
            let j = choose|j: int| 0 <= j < s.drop_last().len() && s.drop_last()[j] == y;
            assert(s[j] == y);
        }
    }
}

proof fn lemma_sort_len(s: Seq<Transaction>)
    ensures
        sort_by_fee(s).len() == s.len(),
    decreases s.len(),
{
    if s.len() > 0 {
        lemma_sort_len(s.drop_last());
        lemma_insert_len(sort_by_fee(s.drop_last()), s.last());
    }
}

proof fn lemma_insert_len(s: Seq<Transaction>, x: Transaction)
    ensures
        insert_by_fee(s, x).len() == s.len() + 1,
    decreases s.len(),
{
    if s.len() > 0 && s.last().spec_fee() > x.spec_fee() {
        lemma_insert_len(s.drop_last(), x);
    }
}

/// A block's transactions in the order they are taken in: the coinbase first, then the
/// others from the highest fee to the lowest (of equal fees, the later one first).
pub open spec fn fee_ordered(txs: Seq<Transaction>) -> Seq<Transaction> {
    if txs.len() == 0 {
        txs
    } else {
        seq![txs[0]] + sort_by_fee(txs.skip(1)).reverse()
    }
}

/// A block with its transactions in the order they are taken in.
pub open spec fn fee_ordered_view(b: Block) -> BlockModel {
    BlockModel {
        header: b.header,
        transactions: fee_ordered(b.transactions@).map_values(|t: Transaction| t@),
        ticket_votes: b@.ticket_votes,
    }
}

/// Ordering keeps the first transaction first and takes every other from after it.
proof fn lemma_fee_ordered(txs: Seq<Transaction>)
    requires
        txs.len() > 0,
    ensures
        fee_ordered(txs).len() == txs.len(),
        fee_ordered(txs)[0] == txs[0],
        forall|i: int| 1 <= i < txs.len() ==> exists|j: int| 1 <= j < txs.len() && #[trigger] fee_ordered(txs)[i] == txs[j],
{
    let rest = txs.skip(1);
    lemma_sort_len(rest);
    let o = fee_ordered(txs);
    assert forall|i: int| 1 <= i < txs.len() implies exists|j: int| 1 <= j < txs.len() && #[trigger] o[i] == txs[j] by {
        let y = o[i];
        let sorted = sort_by_fee(rest);
        assert(y == sorted.reverse()[i - 1]);
        assert(y == sorted[sorted.len() - 1 - (i - 1)]);
        assert(sorted.contains(y));
        lemma_sort_contains(rest, y);
        let k = choose|k: int| 0 <= k < rest.len() && rest[k] == y;
        assert(txs[k + 1] == y);
    }
}

/// The transactions in the order `fee_ordered` states.
fn order_by_fee(txs: Vec<Transaction>) -> (r: Vec<Transaction>)
    ensures
        r@ == fee_ordered(txs@),
{
    if txs.len() == 0 {
        return txs;
    }
    let ghost orig = txs@;
    let mut rest = txs;
    let first = rest.remove(0);
    assert(rest@ =~= orig.skip(1));
    let mut ordered = reversed(sort_by_fee_exec(rest));
    let mut r: Vec<Transaction> = Vec::new();
    r.push(first);
    let ghost tail = ordered@;
    let ghost mut k: int = 0;
    assert(tail.skip(0) =~= tail);
    assert(r@ =~= seq![orig[0]] + tail.take(0));
    while ordered.len() > 0
        invariant
            0 <= k <= tail.len(),
            ordered@ == tail.skip(k),
            r@ == seq![orig[0]] + tail.take(k),
        decreases ordered@.len(),
    {
        let x = ordered.remove(0);
        r.push(x);
        proof {
            k = k + 1;
        }
        assert(r@ =~= seq![orig[0]] + tail.take(k));
        assert(ordered@ =~= tail.skip(k));
    }
    assert(tail.take(tail.len() as int) =~= tail);
    r
}

/// Two lists of transactions whose items have equal views, one for one.
pub open spec fn same_views(a: Seq<Transaction>, b: Seq<Transaction>) -> bool {
    a.len() == b.len() && forall|i: int| 0 <= i < a.len() ==> #[trigger] a[i]@ == b[i]@
}

/// The outputs a viewed transaction makes.
pub open spec fn model_outputs(t: TransactionModel) -> Seq<TxOutputModel> {
    match t {
        TransactionModel::Standard { outputs, .. } => outputs,
        TransactionModel::Coinbase { outputs, .. } => outputs,
        TransactionModel::TicketPurchase { outputs, .. } => outputs,
        TransactionModel::TicketRedemption { outputs, .. } => outputs,
        TransactionModel::MasternodeRegister { outputs, .. } => outputs,
        TransactionModel::GovernanceProposal { outputs, .. } => outputs,
        TransactionModel::GovernanceVote { outputs, .. } => outputs,
    }
}

proof fn lemma_model_parts(t: Transaction)
    ensures
        model_outputs(t@) == outputs_view(t.spec_outputs()),
        (t@ is Coinbase) == (t is Coinbase),
{
    match t {
        Transaction::Standard { .. } => {},
        Transaction::Coinbase { .. } => {},
        Transaction::TicketPurchase { .. } => {},
        Transaction::TicketRedemption { .. } => {},
        Transaction::MasternodeRegister { .. } => {},
        Transaction::GovernanceProposal(_) => {},
        Transaction::GovernanceVote(_) => {},
    }
}

/// Transactions with equal views spend the same outpoints, make outputs with the same
/// views and are of the same kind.
proof fn lemma_view_parts(a: Transaction, b: Transaction)
    requires
        a@ == b@,
    ensures
        (a is Coinbase) == (b is Coinbase),
        a.spec_inputs().len() == b.spec_inputs().len(),
        a.spec_outputs().len() == b.spec_outputs().len(),
        forall|i: int| 0 <= i < a.spec_inputs().len() ==> #[trigger] a.spec_inputs()[i].previous_output
            == b.spec_inputs()[i].previous_output,
        forall|i: int| 0 <= i < a.spec_outputs().len() ==> #[trigger] a.spec_outputs()[i]@ == b.spec_outputs()[i]@,
{
    crate::types::lemma_view_fields(a);
    crate::types::lemma_view_fields(b);
    lemma_model_parts(a);
    lemma_model_parts(b);
    assert(crate::types::inputs_view(a.spec_inputs()).len() == a.spec_inputs().len());
    assert(outputs_view(a.spec_outputs()).len() == a.spec_outputs().len());
    assert forall|i: int| 0 <= i < a.spec_inputs().len() implies #[trigger] a.spec_inputs()[i].previous_output
        == b.spec_inputs()[i].previous_output by {
        assert(crate::types::inputs_view(a.spec_inputs())[i] == crate::types::inputs_view(b.spec_inputs())[i]);
    }
    assert forall|i: int| 0 <= i < a.spec_outputs().len() implies #[trigger] a.spec_outputs()[i]@ == b.spec_outputs()[i]@ by {
        assert(outputs_view(a.spec_outputs())[i] == outputs_view(b.spec_outputs())[i]);
    }
}

proof fn lemma_spend_inputs_views(m: Map<OutPoint, UtxoModel>, a: Seq<TxInput>, b: Seq<TxInput>)
    requires
        a.len() == b.len(),
        forall|i: int| 0 <= i < a.len() ==> #[trigger] a[i].previous_output == b[i].previous_output,
    ensures
        spend_inputs(m, a) == spend_inputs(m, b),
    decreases a.len(),
{
    if a.len() > 0 {
        assert forall|i: int| 0 <= i < a.drop_last().len() implies #[trigger] a.drop_last()[i].previous_output
            == b.drop_last()[i].previous_output by {
            assert(a[i].previous_output == b[i].previous_output);
        }
        lemma_spend_inputs_views(m, a.drop_last(), b.drop_last());
        assert(a.last().previous_output == b.last().previous_output);
    }
}

proof fn lemma_add_outputs_views(m: Map<OutPoint, UtxoModel>, txid: [u8; 32], a: Seq<TxOutput>, b: Seq<TxOutput>, c: bool, h: u64, n: nat)
    requires
        n <= a.len(),
        a.len() == b.len(),
        forall|i: int| 0 <= i < a.len() ==> #[trigger] a[i]@ == b[i]@,
    ensures
        add_outputs(m, txid, a, c, h, n) == add_outputs(m, txid, b, c, h, n),
    decreases n,
{
    if n > 0 {
        lemma_add_outputs_views(m, txid, a, b, c, h, (n - 1) as nat);
        assert(a[n - 1]@ == b[n - 1]@);
    }
}

proof fn lemma_spend_all_views(m: Map<OutPoint, UtxoModel>, a: Seq<Transaction>, b: Seq<Transaction>, n: nat)
    requires
        same_views(a, b),
        n <= a.len(),
    ensures
        spend_all(m, a, n) == spend_all(m, b, n),
    decreases n,
{
    if n > 0 {
        lemma_spend_all_views(m, a, b, (n - 1) as nat);
        assert(a[n - 1]@ == b[n - 1]@);
        lemma_view_parts(a[n - 1], b[n - 1]);
        lemma_spend_inputs_views(spend_all(m, a, (n - 1) as nat), a[n - 1].spec_inputs(), b[n - 1].spec_inputs());
    }
}

proof fn lemma_add_all_views(m: Map<OutPoint, UtxoModel>, a: Seq<Transaction>, b: Seq<Transaction>, h: u64, n: nat)
    requires
        same_views(a, b),
        n <= a.len(),
    ensures
        add_all(m, a, h, n) == add_all(m, b, h, n),
    decreases n,
{
    if n > 0 {
        lemma_add_all_views(m, a, b, h, (n - 1) as nat);
        assert(a[n - 1]@ == b[n - 1]@);
        lemma_view_parts(a[n - 1], b[n - 1]);
        let ta = a[n - 1];
        let tb = b[n - 1];
        lemma_add_outputs_views(add_all(m, a, h, (n - 1) as nat), spec_txid(ta@), ta.spec_outputs(), tb.spec_outputs(),
            ta is Coinbase, h, ta.spec_outputs().len());
    }
}

/// Applying a block to the outputs depends on the block only through its view: blocks with
/// equal views do the same to the set.
pub proof fn lemma_apply_block_views(m: Map<OutPoint, UtxoModel>, b1: Block, b2: Block, h: u64)
    requires
        b1@ == b2@,
    ensures
        apply_block_spec(m, b1, h) == apply_block_spec(m, b2, h),
{
    let a = b1.transactions@;
    let b = b2.transactions@;
    let va = a.map_values(|t: Transaction| t@);
    let vb = b.map_values(|t: Transaction| t@);
    assert(va == b1@.transactions && vb == b2@.transactions);
    assert(a.len() == va.len() && b.len() == vb.len());
    assert forall|i: int| 0 <= i < a.len() implies #[trigger] a[i]@ == b[i]@ by {
        assert(va[i] == a[i]@ && vb[i] == b[i]@);
    }
    let n = a.len();
    lemma_spend_all_views(m, a, b, n);
    lemma_add_all_views(spend_all(m, a, n), a, b, h, n);
}

/// The header of the block the chain stores under height `h`, if it stores one.
pub open spec fn stored_header_at(c: Blockchain, h: u64) -> Option<BlockHeader> {
    match stored_block_at(&c, h) {
        Some(b) => Some(b.header),
        None => None,
    }
}

/// Whether `cur` is a difficulty-adjustment height for a window of `window` blocks.
#[verifier::opaque]
pub open spec fn at_adjustment(cur: u64, window: u64) -> bool {
    window > 0 && cur % window == 0
}

/// Why a block's header is refused against the chain, if it is: above height zero, the
/// chain's latest block must be stored and be the one the header builds on; at a
/// difficulty-adjustment height the first block of the interval must be stored (where it
/// is, the retarget divides by zero, which `add_block` rules out); elsewhere the header
/// keeps the latest block's target; and its proof of work must meet its own target.
pub open spec fn header_stage_error(c: Blockchain, header: BlockHeader) -> Option<ErrorModel> {
    let cur = stored_height_or_zero(&c);
    let window = c.params.difficulty_adjustment_window as u64;
    let prior = if cur > 0 {
        match stored_header_at(c, cur) {
            None => Some(ErrorModel::Internal("Last block not found for validation"@)),
            Some(lh) => if header.previous_block_hash != spec_header_hash(lh) {
                Some(ErrorModel::InvalidBlock("Fork detected: Incoming block's previous hash "@ + byte_list(header.previous_block_hash@)
                    + " does not match current tip "@ + byte_list(spec_header_hash(lh)@)))
            } else if at_adjustment(cur, window) {
                Some(ErrorModel::Internal("First block in interval not found"@))
            } else if header.difficulty_target != lh.difficulty_target {
                Some(ErrorModel::InvalidProofOfWork)
            } else {
                None
            },
        }
    } else {
        None
    };
    if prior is Some {
        prior
    } else if !own_target_met(header) {
        Some(ErrorModel::InvalidProofOfWork)
    } else {
        None
    }
}

/// Whether the header checks stay defined: the chain height fits a block height, and where
/// the header builds on the latest block the adjustment window is positive and, at an
/// adjustment height, the first block of the interval is not stored (else the retarget
/// divides by zero).
pub open spec fn header_stage_defined(c: Blockchain, header: BlockHeader) -> bool {
    let cur = stored_height_or_zero(&c);
    let window = c.params.difficulty_adjustment_window as u64;
    &&& cur <= u32::MAX
    &&& ((cur > 0 && stored_header_at(c, cur) is Some
        && header.previous_block_hash == spec_header_hash(stored_header_at(c, cur)->0))
        ==> window > 0 && (at_adjustment(cur, window) ==> stored_header_at(c, (cur - window) as u64) is None))
}

/// Why a transaction fails the input and script check against `utxos` at `height`, if it
/// does: its inputs must be found, spent once and cover its outputs and fee, and its
/// scripts must run.
pub open spec fn checks_error(utxos: Map<OutPoint, UtxoModel>, t: Transaction, height: u64) -> Option<ErrorModel> {
    if !inputs_valid(utxos, t) {
        Some(ErrorModel::TransactionValidation("Transaction input validation failed for tx: "@ + byte_list(spec_txid(t@)@)))
    } else if !scripts_valid(t, utxos, height) {
        Some(ErrorModel::InvalidScript("Transaction script verification failed for tx: "@ + byte_list(spec_txid(t@)@)))
    } else {
        None
    }
}

/// Whether every transaction after the coinbase can be taken in without overflow and with
/// its digest at hand (`intake_fits`).
pub open spec fn intakes_fit(utxos: Map<OutPoint, UtxoModel>, txs: Seq<Transaction>, dg: Map<[u8; 32], GovernanceDigest>) -> bool {
    forall|i: int| 1 <= i < txs.len() ==> intake_fits(utxos, #[trigger] txs[i], dg)
}

/// Why the first transaction is refused as the coinbase paid `pow_reward`, if it is: it
/// must be a coinbase, its outputs may not sum above the reward, and it must have an
/// output to pay the reward to.
pub open spec fn coinbase_error(t: Transaction, pow_reward: u64) -> Option<ErrorModel> {
    match t {
        Transaction::Coinbase { outputs, .. } => {
            let actual = outputs_sum(outputs@, outputs@.len() as int);
            if actual > pow_reward {
                Some(ErrorModel::InvalidCoinbase("Coinbase output value exceeds expected PoW reward. Expected: "@
                    + decimal(pow_reward as nat) + ", Actual: "@ + decimal(actual)))
            } else if outputs@.len() == 0 {
                Some(ErrorModel::InvalidCoinbase("Coinbase transaction has no outputs to assign reward to."@))
            } else {
                None
            }
        },
        _ => Some(ErrorModel::InvalidCoinbase("First transaction in block is not a coinbase transaction"@)),
    }
}

/// A first transaction that is no coinbase, or a coinbase with no outputs, or whose
/// outputs sum above the reward, is refused; one that is a coinbase with outputs summing
/// to at most the reward is accepted.
pub proof fn law_coinbase_held_to_reward(t: Transaction, pow_reward: u64)
    ensures
        (t matches Transaction::Coinbase { outputs, .. } && outputs@.len() > 0
            && outputs_sum(outputs@, outputs@.len() as int) <= pow_reward) <==> coinbase_error(t, pow_reward) is None,
        (t matches Transaction::Coinbase { outputs, .. } && outputs_sum(outputs@, outputs@.len() as int) > pow_reward)
            ==> coinbase_error(t, pow_reward) matches Some(ErrorModel::InvalidCoinbase(_)),
{
}

/// Whether a coinbase's outputs sum within a `u64`.
pub open spec fn coinbase_sum_fits(t: Transaction) -> bool {
    t matches Transaction::Coinbase { outputs, .. } ==> outputs_sum(outputs@, outputs@.len() as int) <= u64::MAX
}

/// The block with its coinbase paid the proof-of-work reward: the coinbase's first output
/// carries the reward, keeps its script and loses its memo.
pub open spec fn rewarded(b: BlockModel, pow_reward: u64) -> BlockModel {
    match b.transactions[0] {
        TransactionModel::Coinbase { version, inputs, outputs, lock_time, witness } => BlockModel {
            transactions: b.transactions.update(0, TransactionModel::Coinbase {
                version,
                inputs,
                outputs: outputs.update(0, TxOutputModel { value: pow_reward, script_pubkey: outputs[0].script_pubkey, memo: None }),
                lock_time,
                witness,
            }),
            ..b
        },
        _ => b,
    }
}

/// The ids of the first `n` transactions.
pub open spec fn txids_before(txs: Seq<TransactionModel>, n: int) -> Set<[u8; 32]> {
    Set::new(|id: [u8; 32]| exists|j: int| 0 <= j < n && j < txs.len() && id == spec_txid(#[trigger] txs[j]))
}

/// The ids of a block's transactions.
pub open spec fn block_txids(b: BlockModel) -> Set<[u8; 32]> {
    txids_before(b.transactions, b.transactions.len() as int)
}

/// What a transaction leaves as fee against `utxos`: the value of its inputs found there
/// above the value of its outputs, or nothing.
pub open spec fn fee_left(t: Transaction, utxos: Map<OutPoint, UtxoModel>) -> nat {
    let i = known_input_sum(t.spec_inputs(), utxos, t.spec_inputs().len() as int);
    let o = outputs_sum(t.spec_outputs(), t.spec_outputs().len() as int);
    if i >= o {
        (i - o) as nat
    } else {
        0
    }
}

/// The fees the transactions after the coinbase, among the first `n`, leave.
pub open spec fn fees_before(txs: Seq<Transaction>, utxos: Map<OutPoint, UtxoModel>, n: int) -> nat
    decreases n,
{
    if n <= 1 {
        0
    } else {
        fees_before(txs, utxos, n - 1) + fee_left(txs[n - 1], utxos)
    }
}

proof fn lemma_fees_before_prefix(txs: Seq<Transaction>, utxos: Map<OutPoint, UtxoModel>, k: int, n: int)
    requires
        k <= n,
    ensures
        fees_before(txs, utxos, k) <= fees_before(txs, utxos, n),
    decreases n - k,
{
    if k < n {
        lemma_fees_before_prefix(txs, utxos, k, n - 1);
    }
}

/// Whether a block's reward can be summed in a `u64`: the inputs found and the outputs of
/// each transaction after the coinbase, and the subsidy with all the fees.
pub open spec fn reward_fits(c: Blockchain, block: Block) -> bool {
    let txs = block.transactions@;
    &&& forall|i: int| 1 <= i < txs.len() ==> known_input_sum((#[trigger] txs[i]).spec_inputs(), c.utxo_set@,
        txs[i].spec_inputs().len() as int) <= u64::MAX && outputs_sum(txs[i].spec_outputs(), txs[i].spec_outputs().len() as int)
        <= u64::MAX
    &&& block_subsidy(block.header.height, c.params.halving_interval, c.params.initial_block_reward)
        + fees_before(txs, c.utxo_set@, txs.len() as int) <= u64::MAX
}

/// The fee a transaction leaves, as `fee_left` states.
fn fee_of(utxo_set: &UtxoSet, t: &Transaction) -> (r: u64)
    requires
        known_input_sum(t.spec_inputs(), utxo_set@, t.spec_inputs().len() as int) <= u64::MAX,
        outputs_sum(t.spec_outputs(), t.spec_outputs().len() as int) <= u64::MAX,
    ensures
        r == fee_left(*t, utxo_set@),
{
    let inputs = t.get_inputs();
    let outputs = t.get_outputs();
    let ghost utxos = utxo_set@;
    let mut input_value: u64 = 0;
    let mut j: usize = 0;
    while j < inputs.len()
        invariant
            j <= inputs@.len(),
            inputs@ == t.spec_inputs(),
            utxos == utxo_set@,
            known_input_sum(inputs@, utxos, inputs@.len() as int) <= u64::MAX,
            input_value == known_input_sum(inputs@, utxos, j as int),
        decreases inputs@.len() - j,
    {
        proof {
            lemma_known_input_sum_prefix(inputs@, utxos, j as int + 1, inputs@.len() as int);
        }
        match utxo_set.get_utxo(&inputs[j].previous_output) {
            Some(u) => {
                input_value = input_value + u.output.value;
            },
            None => {},
        }
        j = j + 1;
    }
    let mut output_value: u64 = 0;
    let mut k: usize = 0;
    while k < outputs.len()
        invariant
            k <= outputs@.len(),
            outputs@ == t.spec_outputs(),
            outputs_sum(outputs@, outputs@.len() as int) <= u64::MAX,
            output_value == outputs_sum(outputs@, k as int),
        decreases outputs@.len() - k,
    {
        proof {
            lemma_outputs_sum_prefix(outputs@, k as int + 1, outputs@.len() as int);
        }
        output_value = output_value + outputs[k].value;
        k = k + 1;
    }
    if input_value >= output_value {
        input_value - output_value
    } else {
        0
    }
}

/// The input and script check of one transaction, as `checks_error` states.
fn check_inputs_and_scripts(utxo_set: &UtxoSet, t: &Transaction, h: u64) -> (r: Result<(), ConsensusError>)
    requires
        input_totals_fit(utxo_set@, *t),
        t.spec_inputs().len() <= MAX_COUNTED_INPUTS,
        height_in_bounds(h),
    ensures
        checks_error(utxo_set@, *t, h) is None ==> r is Ok,
        checks_error(utxo_set@, *t, h) matches Some(m) ==> (r matches Err(e) && e@ == m),
{
    let id = t.txid();
    if !utxo_set.validate_transaction_inputs(t) {
        let mut m = message("Transaction input validation failed for tx: ");
        push_byte_list(&mut m, id.as_slice());
        return Err(ConsensusError::TransactionValidation(m));
    }
    let mut engine = ScriptEngine::new();
    if !engine.validate_transaction(t, utxo_set, h) {
        let mut m = message("Transaction script verification failed for tx: ");
        push_byte_list(&mut m, id.as_slice());
        return Err(ConsensusError::InvalidScript(m));
    }
    Ok(())
}

/// The coinbase check, as `coinbase_error` states.
fn check_coinbase(t: &Transaction, pow_reward: u64) -> (r: Result<(), ConsensusError>)
    requires
        coinbase_sum_fits(*t),
    ensures
        coinbase_error(*t, pow_reward) is None ==> r is Ok,
        coinbase_error(*t, pow_reward) matches Some(m) ==> (r matches Err(e) && e@ == m),
{
    match t {
        Transaction::Coinbase { outputs, .. } => {
            let mut actual: u64 = 0;
            let mut i: usize = 0;
            while i < outputs.len()
                invariant
                    i <= outputs@.len(),
                    outputs_sum(outputs@, outputs@.len() as int) <= u64::MAX,
                    actual == outputs_sum(outputs@, i as int),
                decreases outputs@.len() - i,
            {
                proof {
                    crate::consensus::chain::lemma_outputs_sum_prefix(outputs@, i as int + 1, outputs@.len() as int);
                }
                actual = actual + outputs[i].value;
                i = i + 1;
            }
            if actual > pow_reward {
                return Err(ConsensusError::InvalidCoinbase(text_numbers(
                    "Coinbase output value exceeds expected PoW reward. Expected: ",
                    pow_reward,
                    ", Actual: ",
                    actual,
                )));
            }
            if outputs.len() == 0 {
                return Err(ConsensusError::InvalidCoinbase(message("Coinbase transaction has no outputs to assign reward to.")));
            }
            Ok(())
        },
        _ => Err(ConsensusError::InvalidCoinbase(message("First transaction in block is not a coinbase transaction"))),
    }
}

/// What accepting the block `rb` does to the chain `c0`, giving `c1`, and to the mempool
/// `mp0`, giving `mp1`: the block is applied to the outputs at its height, stored and made
/// the tip; its transactions leave the mempool; its masternodes are registered in order;
/// the tickets whose outputs the set now spends leave the live pool and the block's
/// purchases join it, up to the first malformed one; the parameters and the tip field
/// stay.
pub open spec fn accepted_state(
    c0: Blockchain,
    c1: Blockchain,
    mp0: Map<[u8; 32], TransactionModel>,
    mp1: Map<[u8; 32], TransactionModel>,
    rb: BlockModel,
) -> bool {
    let h = rb.header.height;
    let hash = spec_header_hash(rb.header);
    let txs = rb.transactions;
    let n = txs.len() as int;
    let tk = c0.live_tickets@.remove_keys(used_ticket_ids(c1.utxo_set@));
    &&& forall|b: Block| #![trigger b@] b@ == rb ==> c1.utxo_set@ == apply_block_spec(c0.utxo_set@, b, h)
    &&& c1.state.tip == hash
    &&& c1.state.current_height == h
    &&& c1.state.blocks().dom() == c0.state.blocks().dom().insert(hash)
    &&& c1.state.blocks()[hash]@ == rb
    &&& c1.state.hashes() == c0.state.hashes().insert(h, hash)
    &&& mp1 == mp0.remove_keys(block_txids(rb))
    &&& c1.masternode_list.entries() == registrations_after(c0.masternode_list.entries(), txs, n)
    &&& c1.masternode_list@ == c0.masternode_list@.union(registered_from(txs, 0))
    &&& purchases_ok(txs, n) ==> c1.live_tickets@ == crate::consensus::pos::with_purchases(tk, txs, n, h)
    &&& !purchases_ok(txs, n) ==> exists|k: int|
        0 <= k < n && purchases_ok(txs, k) && #[trigger] purchase_error(txs[k]) is Some
        && c1.live_tickets@ == with_purchases(tk, txs, k, h)
    &&& c1.params == c0.params
    &&& c1.tip == c0.tip
}

/// A copy of the block with its coinbase paid the proof-of-work reward, as `rewarded` states.
fn rewarded_block(block: &Block, pow_reward: u64) -> (r: Block)
    requires
        block.transactions@.len() > 0,
        coinbase_error(block.transactions@[0], pow_reward) is None,
    ensures
        r@ == rewarded(block@, pow_reward),
        r.header == block.header,
{
    let mut b = block.deep_copy();
    let ghost before = b.transactions@;
    assert(before.map_values(|t: Transaction| t@) == block@.transactions);
    assert(block.transactions@.map_values(|t: Transaction| t@) == block@.transactions);
    assert(before.len() == block.transactions@.len());
    assert(before.map_values(|t: Transaction| t@)[0] == before[0]@);
    assert(block@.transactions[0] == block.transactions@[0]@);
    let mut txs: Vec<Transaction> = Vec::new();
    std::mem::swap(&mut txs, &mut b.transactions);
    let first = txs.remove(0);
    proof {
        lemma_model_parts(first);
        lemma_model_parts(block.transactions@[0]);
    }
    let ghost fv = first@;
    let ghost t0 = block.transactions@[0];
    assert(fv == t0@);
    let cb = match first {
        Transaction::Coinbase { version, inputs, outputs, lock_time, witness } => {
            let mut outputs = outputs;
            let ghost outs0 = outputs@;
            proof {
                match t0 {
                    Transaction::Coinbase { outputs: o0, .. } => {
                        assert(outputs_view(o0@).len() == o0@.len());
                        assert(outputs_view(outs0).len() == outs0.len());
                    },
                    _ => {},
                }
            }
            let o = outputs.remove(0);
            let paid = TxOutput { value: pow_reward, script_pubkey: o.script_pubkey, memo: None };
            outputs.insert(0, paid);
            proof {
                assert(outputs@ =~= outs0.update(0, paid));
                assert(outputs_view(outs0)[0] == o@);
                assert(outputs_view(outputs@) =~= outputs_view(outs0).update(0, paid@));
            }
            Transaction::Coinbase { version, inputs, outputs, lock_time, witness }
        },
        other => other,
    };
    txs.insert(0, cb);
    b.transactions = txs;
    proof {
        assert(b.transactions@ =~= before.update(0, cb));
        assert forall|i: int| 0 <= i < before.len() implies block@.transactions[i] == (#[trigger] before[i])@ by {
            assert(before.map_values(|t: Transaction| t@)[i] == before[i]@);
        }
        assert(b@.transactions =~= block@.transactions.update(0, cb@));
    }
    b
}

/// Takes a block's transactions out of the mempool.
fn remove_block_txs(mempool: &mut Mempool, b: &Block)
    ensures
        final(mempool)@ == old(mempool)@.remove_keys(block_txids(b@)),
{
    let ghost v = b@.transactions;
    let mut i: usize = 0;
    while i < b.transactions.len()
        invariant
            i <= b.transactions@.len(),
            v == b@.transactions,
            v.len() == b.transactions@.len(),
            mempool@ == old(mempool)@.remove_keys(txids_before(v, i as int)),
        decreases b.transactions@.len() - i,
    {
        let id = b.transactions[i].txid();
        let _ = mempool.remove_transaction(&id);
        proof {
            assert(v[i as int] == b.transactions@[i as int]@);
            assert(txids_before(v, i as int + 1) =~= txids_before(v, i as int).insert(id)) by {
                assert forall|x: [u8; 32]| txids_before(v, i as int + 1).contains(x) implies txids_before(v, i as int).insert(id).contains(x) by {
                    let j = choose|j: int| 0 <= j < i as int + 1 && j < v.len() && x == spec_txid(#[trigger] v[j]);
                    if j < i {
                        assert(txids_before(v, i as int).contains(x));
                    }
                }
                assert forall|x: [u8; 32]| txids_before(v, i as int).insert(id).contains(x) implies txids_before(v, i as int + 1).contains(x) by {
                    if x == id {
                        assert(x == spec_txid(v[i as int]));
                    } else {
                        let j = choose|j: int| 0 <= j < i as int && j < v.len() && x == spec_txid(#[trigger] v[j]);
                    }
                }
            }
            assert(mempool@ =~= old(mempool)@.remove_keys(txids_before(v, i as int + 1)));
        }
        i = i + 1;
    }
}

impl Blockchain {
    /// The header checks, as `header_stage_error` states.
    fn check_header_against_tip(&self, header: &BlockHeader) -> (r: Result<(), ConsensusError>)
        requires
            header_stage_defined(*self, *header),
        ensures
            header_stage_error(*self, *header) is None ==> r is Ok,
            header_stage_error(*self, *header) matches Some(m) ==> (r matches Err(e) && e@ == m),
    {
        let current_height = match self.state.get_current_block_height() {
            Ok(h) => h,
            Err(e) => {
                return Err(e);
            },
        };
        assert(current_height == stored_height_or_zero(self));
        if current_height > 0 {
            let last = match self.get_latest_block() {
                Ok(Some(b)) => b.header,
                _ => {
                    return Err(ConsensusError::Internal(message("Last block not found for validation")));
                },
            };
            assert(stored_header_at(*self, current_height) == Some(last));
            let last_hash = last.hash();
            if !hash_eq(&header.previous_block_hash, &last_hash) {
                return Err(ConsensusError::InvalidBlock(text_byte_lists(
                    "Fork detected: Incoming block's previous hash ",
                    header.previous_block_hash.as_slice(),
                    " does not match current tip ",
                    last_hash.as_slice(),
                )));
            }
            let window = self.params.difficulty_adjustment_window as u64;
            proof {
                reveal(at_adjustment);
            }
            if current_height % window == 0 {
                assert(current_height >= window) by (nonlinear_arith)
                    requires
                        current_height > 0,
                        window > 0,
                        current_height % window == 0,
                ;
                let first_height = (current_height - window) as u32;
                match self.state.get_block(first_height) {
                    Ok(Some(_)) => {
                        assert(false);
                        return Err(ConsensusError::InvalidProofOfWork);
                    },
                    _ => {
                        return Err(ConsensusError::Internal(message("First block in interval not found")));
                    },
                }
            }
            if header.difficulty_target != last.difficulty_target {
                return Err(ConsensusError::InvalidProofOfWork);
            }
        }
        let pow_ok = verify_pow(header, u256_from_u64(header.difficulty_target as u64));
        proof {
            reveal(own_target_met);
        }
        if !pow_ok {
            return Err(ConsensusError::InvalidProofOfWork);
        }
        Ok(())
    }

    /// Applies an accepted block: to the outputs, the store, the mempool, the masternode
    /// registry and the live tickets, and makes it the tip.
    fn accept_block(&mut self, b: &Block, mempool: &mut Mempool)
        requires
            b.header.height <= u32::MAX,
        ensures
            accepted_state(*old(self), *final(self), old(mempool)@, final(mempool)@, b@),
            final(self).active_proposals == old(self).active_proposals,
    {
        let h = b.header.height;
        self.utxo_set.apply_block(b, h);
        let _ = self.state.put_block(b);
        remove_block_txs(mempool, b);
        self.apply_registrations(b);
        let used = self.utxo_set.get_used_inputs_as_ticket_ids();
        proof {
            assert(used@.to_set() == used_ticket_ids(self.utxo_set@));
        }
        let ghost tk0 = self.live_tickets@;
        let _ = self.live_tickets.update_for_new_block(b, &used);
        proof {
            assert(crate::consensus::pos::without_ids(tk0, used@) =~= tk0.remove_keys(used_ticket_ids(self.utxo_set@)));
        }
        let hash = b.hash();
        let _ = self.state.update_tip(hash, h);
        proof {
            assert(block_txs(*b) == b@.transactions);
            assert forall|c: Block| #![trigger c@] c@ == b@ implies self.utxo_set@ == apply_block_spec(old(self).utxo_set@, c, h) by {
                lemma_apply_block_views(old(self).utxo_set@, c, *b, h);
            }
        }
    }

    /// The reward a block's miner and stake voters share: the subsidy at its height plus the
    /// fees its transactions after the coinbase leave against the chain's outputs.
    pub fn block_reward_total(&self, block: &Block) -> (r: u64)
        requires
            self.params.halving_interval > 0,
            reward_fits(*self, *block),
        ensures
            r == block_subsidy(block.header.height, self.params.halving_interval, self.params.initial_block_reward)
                + fees_before(block.transactions@, self.utxo_set@, block.transactions@.len() as int),
    {
        let subsidy = self.state.get_block_subsidy(block.header.height, self.params.halving_interval, self.params.initial_block_reward);
        let ghost txs = block.transactions@;
        let ghost total = fees_before(txs, self.utxo_set@, txs.len() as int);
        let mut fees: u64 = 0;
        let mut i: usize = 1;
        while i < block.transactions.len()
            invariant
                1 <= i,
                i <= block.transactions@.len() || i == 1,
                txs == block.transactions@,
                reward_fits(*self, *block),
                subsidy + total <= u64::MAX,
                total == fees_before(txs, self.utxo_set@, txs.len() as int),
                fees == fees_before(txs, self.utxo_set@, i as int),
            decreases block.transactions@.len() - i,
        {
            proof {
                lemma_fees_before_prefix(txs, self.utxo_set@, i as int + 1, txs.len() as int);
            }
            let f = fee_of(&self.utxo_set, &block.transactions[i]);
            fees = fees + f;
            i = i + 1;
        }
        subsidy + fees
    }

    /// Adds a block at the tip, the coinbase to be paid `pow_reward` and the stake voters
    /// to share `pos_reward`, with `digests` holding, by transaction id, what each
    /// governance transaction of the block is signed over. The transactions are taken in
    /// the coinbase first, then the others from the highest fee to the lowest
    /// (`fee_ordered`). The stages run in this order, and the first that fails is the
    /// error:
    /// - the header, against the latest block (`header_stage_error`), with nothing changed;
    /// - the transactions after the coinbase, in that order (`intake`): a proposal is put
    ///   to the vote and a vote counted, as governance takes them in, and every one must
    ///   pass the input and script checks against the outputs at the chain height; the
    ///   proposals and votes taken in before a failure stay;
    /// - the coinbase, held to the reward (`coinbase_error`);
    /// - the stake votes and reward (`pos_block_error`, for the voters the lottery selects),
    ///   then every voted ticket must be live.
    /// After the header, a failure leaves all but the proposals as they were, and the
    /// mempool too. The block so ordered, its coinbase paid the reward (`rewarded`), is then
    /// accepted as `accepted_state` states. The two rewards share the block's subsidy and
    /// the fees its transactions leave (`block_reward_total`).
    #[verifier::rlimit(60)]
    pub fn add_block(
        &mut self,
        block: Block,
        digests: &AssocList<[u8; 32], GovernanceDigest>,
        mempool: &mut Mempool,
        pow_reward: u64,
        pos_reward: u64,
    ) -> (r: Result<(), ConsensusError>)
        requires
            block.transactions@.len() > 0,
            header_stage_defined(*old(self), block.header),
            header_stage_error(*old(self), block.header) is None ==> {
                &&& height_in_bounds(stored_height_or_zero(old(self)))
                &&& intakes_fit(old(self).utxo_set@, block.transactions@, digests.map())
                &&& coinbase_sum_fits(block.transactions@[0])
                &&& block.header.height <= u32::MAX
                &&& pow_reward + pos_reward == block_subsidy(block.header.height, old(self).params.halving_interval,
                    old(self).params.initial_block_reward) + fees_before(block.transactions@, old(self).utxo_set@,
                    block.transactions@.len() as int)
            },
        ensures
            ({
                let c = *old(self);
                let tickets = c.live_tickets@;
                let votes = block.ticket_votes@;
                let rest = fee_ordered(block.transactions@).skip(1);
                let cur = stored_height_or_zero(old(self));
                let hdr = header_stage_error(c, block.header);
                let cbe = coinbase_error(block.transactions@[0], pow_reward);
                let all_live = forall|i: int| 0 <= i < votes.len() ==> tickets.dom().contains(#[trigger] votes[i].ticket_id);
                &&& r is Err ==> same_but_proposals(*final(self), *old(self)) && final(mempool)@ == old(mempool)@
                &&& hdr matches Some(m) ==> (r matches Err(e) && e@ == m) && *final(self) == *old(self)
                &&& hdr is None ==> exists|recs: Seq<Option<bool>>| {
                    &&& #[trigger] recs_fit(c.active_proposals@, rest, cur, c.params.voting_period_blocks,
                        c.params.proposal_stake_amount, c.utxo_set@, digests.map(), recs, tickets, c.masternode_list.entries())
                    &&& {
                        let g = intake(c.active_proposals@, rest, rest.len() as int, cur, c.params.voting_period_blocks,
                            c.params.proposal_stake_amount, c.utxo_set@, digests.map(), recs);
                        &&& final(self).active_proposals@ == g.0
                        &&& g.1 matches Some(m) ==> (r matches Err(e) && e@ == m)
                        &&& g.1 is None ==> (cbe matches Some(m) ==> (r matches Err(e) && e@ == m))
                        &&& g.1 is None && cbe is None ==> exists|sel: Seq<[u8; 32]>|
                            #[trigger] voters_selected(tickets.dom(), block.header.previous_block_hash, sel) && {
                                let pe = pos_block_error(block, sel, tickets, c.params.ticket_expiry, pos_reward);
                                &&& pe matches Some(m) ==> (r matches Err(e) && e@ == m)
                                &&& pe is None ==> forall|k: int| #![trigger votes[k]]
                                    0 <= k < votes.len() && !tickets.dom().contains(votes[k].ticket_id)
                                    && (forall|i: int| 0 <= i < k ==> tickets.dom().contains(#[trigger] votes[i].ticket_id))
                                    ==> (r matches Err(e) && e@ == ErrorModel::InvalidTicket(
                                        "Voted ticket "@ + byte_list(votes[k].ticket_id@) + " not found in live pool"@))
                                &&& pe is None && all_live ==> r is Ok
                                &&& r is Ok ==> pe is None
                            }
                        &&& r is Ok ==> g.1 is None && cbe is None && all_live
                    }
                }
                &&& r is Ok ==> hdr is None
                    && accepted_state(c, *final(self), old(mempool)@, final(mempool)@, rewarded(fee_ordered_view(block), pow_reward))
                &&& r is Ok ==> (block.transactions@[0] matches Transaction::Coinbase { outputs, .. }
                    && outputs@.len() > 0 && outputs_sum(outputs@, outputs@.len() as int) <= pow_reward)
                &&& (block.transactions@[0] matches Transaction::Coinbase { outputs, .. }
                    && outputs_sum(outputs@, outputs@.len() as int) > pow_reward) ==> r is Err
            }),
    {
        let ghost original = block;
        let Block { header, transactions, ticket_votes } = block;
        let ordered = order_by_fee(transactions);
        match self.check_header_against_tip(&header) {
            Ok(()) => {},
            Err(e) => {
                return Err(e);
            },
        }
        let current_height = match self.state.get_current_block_height() {
            Ok(h) => h,
            Err(e) => {
                return Err(e);
            },
        };
        let ghost ordered_seq = ordered@;
        proof {
            lemma_fee_ordered(original.transactions@);
        }
        let mut rest = ordered;
        let coinbase = rest.remove(0);
        proof {
            assert(rest@ =~= ordered_seq.skip(1));
            assert forall|i: int| 0 <= i < rest@.len() implies intake_fits(self.utxo_set@, #[trigger] rest@[i], digests.map()) by {
                let j = choose|j: int| 1 <= j < original.transactions@.len() && #[trigger] fee_ordered(original.transactions@)[i + 1]
                    == original.transactions@[j];
                assert(rest@[i] == ordered_seq[i + 1]);
            }
        }
        let ghost rest_seq = rest@;
        let taken = match self.take_in_transactions(rest, current_height, digests) {
            Ok(l) => l,
            Err(e) => {
                return Err(e);
            },
        };
        let mut all: Vec<Transaction> = Vec::new();
        all.push(coinbase);
        let mut src = taken;
        let ghost taken_seq = src@;
        let ghost mut k: int = 0;
        assert(taken_seq.skip(0) =~= taken_seq);
        assert(all@ =~= seq![coinbase] + taken_seq.take(0));
        while src.len() > 0
            invariant
                0 <= k <= taken_seq.len(),
                src@ == taken_seq.skip(k),
                all@ == seq![coinbase] + taken_seq.take(k),
            decreases src@.len(),
        {
            let x = src.remove(0);
            all.push(x);
            proof {
                k = k + 1;
            }
            assert(all@ =~= seq![coinbase] + taken_seq.take(k));
            assert(src@ =~= taken_seq.skip(k));
        }
        let ob = Block { header, transactions: all, ticket_votes };
        proof {
            assert(taken_seq.take(k) =~= taken_seq);
            assert(ob.transactions@[0] == original.transactions@[0]);
            assert forall|i: int| 0 <= i < ob.transactions@.len() implies #[trigger] ob.transactions@[i]@
                == fee_ordered(original.transactions@)[i]@ by {
                if i > 0 {
                    assert(ob.transactions@[i] == taken_seq[i - 1]);
                    assert(rest_seq[i - 1] == fee_ordered(original.transactions@)[i]);
                }
            }
            assert(ob@.transactions =~= fee_ordered_view(original).transactions);
            assert(ob@ =~= fee_ordered_view(original));
        }
        match check_coinbase(&ob.transactions[0], pow_reward) {
            Ok(()) => {},
            Err(e) => {
                return Err(e);
            },
        }
        let paid = rewarded_block(&ob, pow_reward);
        match self.validate_proof_of_stake_and_rewards(&ob, pos_reward) {
            Ok(()) => {},
            Err(e) => {
                return Err(e);
            },
        }
        match self.distribute_pos_rewards(&ob, pos_reward) {
            Ok(()) => {},
            Err(e) => {
                return Err(e);
            },
        }
        self.accept_block(&paid, mempool);
        Ok(())
    }
}

/// What a governance transaction is signed over, as its caller has it: the canonical hash
/// (for a proposal) and the signed bytes, or why they could not be produced.
pub struct GovernanceDigest {
    pub hash: [u8; 32],
    pub canonical_bytes: Result<Vec<u8>, String>,
}

/// The vote a vote transaction carries.
pub open spec fn vote_of(t: Transaction) -> VoteTx {
    match t {
        Transaction::GovernanceVote(v) => v,
        _ => arbitrary(),
    }
}

/// Taking in one transaction at chain height `h`: a proposal is put to the vote (checked as
/// `proposal_error` states against its digest), a vote is counted (as `vote_error` states
/// for the voter record `rec`), and then every transaction passes the input and script
/// check; the proposals after it and the error, if any.
pub open spec fn intake_step(
    ap: Map<[u8; 32], ProposalEntry>,
    t: Transaction,
    h: u64,
    period: u64,
    stake: u64,
    utxos: Map<OutPoint, UtxoModel>,
    dg: Map<[u8; 32], GovernanceDigest>,
    rec: Option<bool>,
) -> (Map<[u8; 32], ProposalEntry>, Option<ErrorModel>) {
    let d = dg[spec_txid(t@)];
    match t {
        Transaction::GovernanceProposal(p) => {
            let e = proposal_error(p, h, period, stake, d.hash, canonical_view(d.canonical_bytes), ap.dom());
            if e is Some {
                (ap, e)
            } else {
                (with_proposal(ap, p), checks_error(utxos, t, h))
            }
        },
        Transaction::GovernanceVote(v) => {
            let e = vote_error(v, h, ap, canonical_view(d.canonical_bytes), rec);
            if e is Some {
                (ap, e)
            } else {
                (with_vote(ap, v), checks_error(utxos, t, h))
            }
        },
        _ => (ap, checks_error(utxos, t, h)),
    }
}

/// Taking in the first `n` transactions in order, stopping at the first error.
#[verifier::opaque]
pub open spec fn intake(
    ap: Map<[u8; 32], ProposalEntry>,
    txs: Seq<Transaction>,
    n: int,
    h: u64,
    period: u64,
    stake: u64,
    utxos: Map<OutPoint, UtxoModel>,
    dg: Map<[u8; 32], GovernanceDigest>,
    recs: Seq<Option<bool>>,
) -> (Map<[u8; 32], ProposalEntry>, Option<ErrorModel>)
    decreases n,
{
    if n <= 0 {
        (ap, None)
    } else {
        let before = intake(ap, txs, n - 1, h, period, stake, utxos, dg, recs);
        if before.1 is Some {
            before
        } else {
            intake_step(before.0, txs[n - 1], h, period, stake, utxos, dg, recs[n - 1])
        }
    }
}

/// Whether `recs` holds, for every vote that is reached, what the search for its voter
/// finds among `tickets` and `masternodes`.
pub open spec fn recs_fit(
    ap: Map<[u8; 32], ProposalEntry>,
    txs: Seq<Transaction>,
    h: u64,
    period: u64,
    stake: u64,
    utxos: Map<OutPoint, UtxoModel>,
    dg: Map<[u8; 32], GovernanceDigest>,
    recs: Seq<Option<bool>>,
    tickets: Map<[u8; 32], TicketModel>,
    masternodes: Map<OutPoint, (Seq<u8>, MasternodeStatus)>,
) -> bool {
    &&& recs.len() == txs.len()
    &&& forall|i: int|
        0 <= i < txs.len() && intake(ap, txs, i, h, period, stake, utxos, dg, recs).1 is None
            && (#[trigger] txs[i]) is GovernanceVote ==> voter_record(vote_of(txs[i]), tickets, masternodes, recs[i])
}

/// Whether a transaction can be taken in without overflow: its input and output sums fit,
/// its inputs are countable, a proposal's outputs sum fits, and a governance transaction
/// has its digest.
pub open spec fn intake_fits(utxos: Map<OutPoint, UtxoModel>, t: Transaction, dg: Map<[u8; 32], GovernanceDigest>) -> bool {
    &&& input_totals_fit(utxos, t)
    &&& t.spec_inputs().len() <= MAX_COUNTED_INPUTS
    &&& (t matches Transaction::GovernanceProposal(p) ==> outputs_sum(p.outputs@, p.outputs@.len() as int) <= u64::MAX)
    &&& ((t is GovernanceProposal || t is GovernanceVote) ==> dg.dom().contains(spec_txid(t@)))
}

proof fn lemma_intake_recs(
    ap: Map<[u8; 32], ProposalEntry>, txs: Seq<Transaction>, n: int, h: u64, period: u64, stake: u64,
    utxos: Map<OutPoint, UtxoModel>, dg: Map<[u8; 32], GovernanceDigest>, r1: Seq<Option<bool>>, r2: Seq<Option<bool>>,
)
    requires
        forall|k: int| 0 <= k < n ==> r1[k] == r2[k],
    ensures
        intake(ap, txs, n, h, period, stake, utxos, dg, r1) == intake(ap, txs, n, h, period, stake, utxos, dg, r2),
    decreases n,
{
    reveal(intake);
    if n > 0 {
        lemma_intake_recs(ap, txs, n - 1, h, period, stake, utxos, dg, r1, r2);
    }
}

proof fn lemma_intake_rest(
    ap: Map<[u8; 32], ProposalEntry>, txs: Seq<Transaction>, k: int, n: int, h: u64, period: u64, stake: u64,
    utxos: Map<OutPoint, UtxoModel>, dg: Map<[u8; 32], GovernanceDigest>, recs: Seq<Option<bool>>,
)
    requires
        0 <= k <= n,
        intake(ap, txs, k, h, period, stake, utxos, dg, recs).1 is Some,
    ensures
        intake(ap, txs, n, h, period, stake, utxos, dg, recs) == intake(ap, txs, k, h, period, stake, utxos, dg, recs),
    decreases n - k,
{
    reveal(intake);
    if k < n {
        lemma_intake_rest(ap, txs, k, n - 1, h, period, stake, utxos, dg, recs);
    }
}

/// Extending the voter records by one keeps every earlier intake, and the intake of one
/// more transaction is its step.
proof fn lemma_intake_extend(
    ap: Map<[u8; 32], ProposalEntry>, txs: Seq<Transaction>, i: int, h: u64, period: u64, stake: u64,
    utxos: Map<OutPoint, UtxoModel>, dg: Map<[u8; 32], GovernanceDigest>, recs: Seq<Option<bool>>, x: Option<bool>,
)
    requires
        0 <= i,
        recs.len() == i,
        intake(ap, txs, i, h, period, stake, utxos, dg, recs).1 is None,
    ensures
        forall|j: int| 0 <= j <= i ==> #[trigger] intake(ap, txs, j, h, period, stake, utxos, dg, recs.push(x))
            == intake(ap, txs, j, h, period, stake, utxos, dg, recs),
        intake(ap, txs, i + 1, h, period, stake, utxos, dg, recs.push(x)) == intake_step(
            intake(ap, txs, i, h, period, stake, utxos, dg, recs).0, txs[i], h, period, stake, utxos, dg, x),
{
    assert forall|j: int| 0 <= j <= i implies #[trigger] intake(ap, txs, j, h, period, stake, utxos, dg, recs.push(x))
        == intake(ap, txs, j, h, period, stake, utxos, dg, recs) by {
        lemma_intake_recs(ap, txs, j, h, period, stake, utxos, dg, recs.push(x), recs);
    }
    lemma_intake_recs(ap, txs, i, h, period, stake, utxos, dg, recs.push(x), recs);
    assert(recs.push(x)[i] == x);
    reveal(intake);
}

/// The voter records stay fitting when one more is added for the next transaction.
proof fn lemma_recs_extend(
    ap: Map<[u8; 32], ProposalEntry>, txs: Seq<Transaction>, i: int, h: u64, period: u64, stake: u64,
    utxos: Map<OutPoint, UtxoModel>, dg: Map<[u8; 32], GovernanceDigest>, recs: Seq<Option<bool>>, x: Option<bool>,
    tickets: Map<[u8; 32], TicketModel>, masternodes: Map<OutPoint, (Seq<u8>, MasternodeStatus)>,
)
    requires
        0 <= i < txs.len(),
        recs.len() == i,
        intake(ap, txs, i, h, period, stake, utxos, dg, recs).1 is None,
        forall|j: int| 0 <= j < i && intake(ap, txs, j, h, period, stake, utxos, dg, recs).1 is None
            && (#[trigger] txs[j]) is GovernanceVote ==> voter_record(vote_of(txs[j]), tickets, masternodes, recs[j]),
        txs[i] is GovernanceVote ==> voter_record(vote_of(txs[i]), tickets, masternodes, x),
    ensures
        forall|j: int| 0 <= j < i + 1 && intake(ap, txs, j, h, period, stake, utxos, dg, recs.push(x)).1 is None
            && (#[trigger] txs[j]) is GovernanceVote ==> voter_record(vote_of(txs[j]), tickets, masternodes, recs.push(x)[j]),
        intake(ap, txs, i + 1, h, period, stake, utxos, dg, recs.push(x)) == intake_step(
            intake(ap, txs, i, h, period, stake, utxos, dg, recs).0, txs[i], h, period, stake, utxos, dg, x),
{
    lemma_intake_extend(ap, txs, i, h, period, stake, utxos, dg, recs, x);
    assert forall|j: int| 0 <= j < i + 1 && intake(ap, txs, j, h, period, stake, utxos, dg, recs.push(x)).1 is None
        && (#[trigger] txs[j]) is GovernanceVote implies voter_record(vote_of(txs[j]), tickets, masternodes, recs.push(x)[j]) by {
        assert(intake(ap, txs, j, h, period, stake, utxos, dg, recs.push(x)) == intake(ap, txs, j, h, period, stake, utxos, dg, recs));
        if j < i {
            assert(recs.push(x)[j] == recs[j]);
        }
    }
}

/// When the intake stops at the `i`-th transaction, records padded to full length fit and
/// give the same intake.
proof fn lemma_intake_close(
    ap: Map<[u8; 32], ProposalEntry>, txs: Seq<Transaction>, i: int, h: u64, period: u64, stake: u64,
    utxos: Map<OutPoint, UtxoModel>, dg: Map<[u8; 32], GovernanceDigest>, recs: Seq<Option<bool>>,
    tickets: Map<[u8; 32], TicketModel>, masternodes: Map<OutPoint, (Seq<u8>, MasternodeStatus)>,
) -> (full: Seq<Option<bool>>)
    requires
        0 <= i < txs.len(),
        recs.len() == i + 1,
        intake(ap, txs, i + 1, h, period, stake, utxos, dg, recs).1 is Some,
        forall|j: int| 0 <= j <= i && intake(ap, txs, j, h, period, stake, utxos, dg, recs).1 is None
            && (#[trigger] txs[j]) is GovernanceVote ==> voter_record(vote_of(txs[j]), tickets, masternodes, recs[j]),
    ensures
        recs_fit(ap, txs, h, period, stake, utxos, dg, full, tickets, masternodes),
        intake(ap, txs, txs.len() as int, h, period, stake, utxos, dg, full) == intake(ap, txs, i + 1, h, period, stake, utxos, dg, recs),
{
    let full = recs + Seq::new((txs.len() - i - 1) as nat, |k: int| None::<bool>);
    assert(full.len() == txs.len());
    assert forall|k: int| 0 <= k < i + 1 implies full[k] == recs[k] by {}
    lemma_intake_recs(ap, txs, i + 1, h, period, stake, utxos, dg, full, recs);
    lemma_intake_rest(ap, txs, i + 1, txs.len() as int, h, period, stake, utxos, dg, full);
    assert forall|j: int|
        0 <= j < txs.len() && intake(ap, txs, j, h, period, stake, utxos, dg, full).1 is None
            && (#[trigger] txs[j]) is GovernanceVote implies voter_record(vote_of(txs[j]), tickets, masternodes, full[j]) by {
        if j > i {
            lemma_intake_rest(ap, txs, i + 1, j, h, period, stake, utxos, dg, full);
        } else {
            lemma_intake_recs(ap, txs, j, h, period, stake, utxos, dg, full, recs);
            assert(full[j] == recs[j]);
        }
    }
    full
}

impl Blockchain {
    /// Takes in one transaction, as `intake_step` states for the voter record it returns,
    /// given the outcome `checked` of its input and script check; gives back the error, if
    /// any, and the transaction (a governance one as a copy).
    fn take_in_one(
        &mut self,
        t: Transaction,
        h: u64,
        digests: &AssocList<[u8; 32], GovernanceDigest>,
        checked: Result<(), ConsensusError>,
    ) -> (r: (Option<ConsensusError>, Transaction, Ghost<Option<bool>>))
        requires
            intake_fits(old(self).utxo_set@, t, digests.map()),
            checks_error(old(self).utxo_set@, t, h) is None ==> checked is Ok,
            checks_error(old(self).utxo_set@, t, h) matches Some(m) ==> (checked matches Err(e) && e@ == m),
        ensures
            same_but_proposals(*final(self), *old(self)),
            r.1@ == t@,
            t is GovernanceVote ==> voter_record(vote_of(t), old(self).live_tickets@, old(self).masternode_list.entries(), r.2@),
            ({
                let step = intake_step(old(self).active_proposals@, t, h, old(self).params.voting_period_blocks,
                    old(self).params.proposal_stake_amount, old(self).utxo_set@, digests.map(), r.2@);
                &&& final(self).active_proposals@ == step.0
                &&& (r.0 is Some <==> step.1 is Some)
                &&& (r.0 matches Some(e) ==> Some(e@) == step.1)
            }),
    {
        let ghost tg = t;
        let id = t.txid();
        let ghost mut rec: Option<bool> = None;
        let copy: Transaction;
        let mut failure: Option<ConsensusError> = None;
        match t {
            Transaction::GovernanceProposal(p) => {
                copy = Transaction::GovernanceProposal(p.deep_copy());
                let d = digests.get(&id).unwrap();
                match self.process_governance_proposal(p, h, &d.hash, &d.canonical_bytes) {
                    Ok(()) => {
                        failure = match checked {
                            Ok(()) => None,
                            Err(e) => Some(e),
                        };
                    },
                    Err(e) => {
                        failure = Some(e);
                    },
                }
            },
            Transaction::GovernanceVote(v) => {
                copy = Transaction::GovernanceVote(v.deep_copy());
                let d = digests.get(&id).unwrap();
                let ghost s_before = *self;
                let res = self.process_governance_vote(v, h, &d.canonical_bytes);
                proof {
                    rec = choose|rc: Option<bool>| #[trigger] voter_record(vote_of(tg), s_before.live_tickets@,
                        s_before.masternode_list.entries(), rc) && {
                        let err = vote_error(vote_of(tg), h, s_before.active_proposals@, canonical_view(d.canonical_bytes), rc);
                        &&& err is None ==> res is Ok && self.active_proposals@ == with_vote(s_before.active_proposals@, vote_of(tg))
                        &&& err matches Some(m) ==> (res matches Err(e) && e@ == m) && self.active_proposals@ == s_before.active_proposals@
                    };
                }
                match res {
                    Ok(()) => {
                        failure = match checked {
                            Ok(()) => None,
                            Err(e) => Some(e),
                        };
                    },
                    Err(e) => {
                        failure = Some(e);
                    },
                }
            },
            other => {
                copy = other;
                failure = match checked {
                    Ok(()) => None,
                    Err(e) => Some(e),
                };
            },
        }
        (failure, copy, Ghost(rec))
    }
}

impl Blockchain {
    /// Takes in a block's transactions in the order given, at chain height `h`, as `intake`
    /// states for what the searches for the voters find: the proposals are left as the
    /// intake leaves them, and on success the transactions come back (governance ones as
    /// copies).
    #[verifier::rlimit(100)]
    #[verifier::loop_isolation(false)]
    fn take_in_transactions(
        &mut self,
        txs: Vec<Transaction>,
        h: u64,
        digests: &AssocList<[u8; 32], GovernanceDigest>,
    ) -> (r: Result<Vec<Transaction>, ConsensusError>)
        requires
            height_in_bounds(h),
            forall|i: int| 0 <= i < txs@.len() ==> intake_fits(old(self).utxo_set@, #[trigger] txs@[i], digests.map()),
        ensures
            same_but_proposals(*final(self), *old(self)),
            exists|recs: Seq<Option<bool>>| {
                &&& #[trigger] recs_fit(old(self).active_proposals@, txs@, h, old(self).params.voting_period_blocks,
                    old(self).params.proposal_stake_amount, old(self).utxo_set@, digests.map(), recs,
                    old(self).live_tickets@, old(self).masternode_list.entries())
                &&& {
                    let g = intake(old(self).active_proposals@, txs@, txs@.len() as int, h, old(self).params.voting_period_blocks,
                        old(self).params.proposal_stake_amount, old(self).utxo_set@, digests.map(), recs);
                    &&& final(self).active_proposals@ == g.0
                    &&& (r is Err <==> g.1 is Some)
                    &&& (g.1 matches Some(m) ==> (r matches Err(e) && e@ == m))
                    &&& (r matches Ok(l) ==> same_views(l@, txs@))
                }
            },
    {
        let ghost orig = txs@;
        let ghost ap0 = self.active_proposals@;
        let ghost period = self.params.voting_period_blocks;
        let ghost stake = self.params.proposal_stake_amount;
        let ghost utxos = self.utxo_set@;
        let ghost dg = digests.map();
        let ghost tickets = self.live_tickets@;
        let ghost mns = self.masternode_list.entries();
        let ghost mut recs: Seq<Option<bool>> = Seq::empty();
        let total = txs.len();
        let mut src = reversed(txs);
        let ghost s0 = src@;
        let mut out: Vec<Transaction> = Vec::new();
        let mut i: usize = 0;
        assert(intake(ap0, orig, 0, h, period, stake, utxos, dg, recs) == (ap0, None::<ErrorModel>)) by {
            reveal(intake);
        }
        assert(orig.subrange(0, 0) =~= Seq::<Transaction>::empty());
        while src.len() > 0
            invariant
                total == orig.len(),
                s0 == orig.reverse(),
                i + src@.len() == orig.len(),
                src@ == s0.subrange(0, src@.len() as int),
                same_but_proposals(*self, *old(self)),
                ap0 == old(self).active_proposals@,
                period == self.params.voting_period_blocks,
                stake == self.params.proposal_stake_amount,
                utxos == self.utxo_set@,
                dg == digests.map(),
                tickets == self.live_tickets@,
                mns == self.masternode_list.entries(),
                height_in_bounds(h),
                forall|j: int| 0 <= j < orig.len() ==> intake_fits(utxos, #[trigger] orig[j], dg),
                recs.len() == i,
                forall|j: int| 0 <= j < i && intake(ap0, orig, j, h, period, stake, utxos, dg, recs).1 is None
                    && (#[trigger] orig[j]) is GovernanceVote ==> voter_record(vote_of(orig[j]), tickets, mns, recs[j]),
                intake(ap0, orig, i as int, h, period, stake, utxos, dg, recs).1 is None,
                self.active_proposals@ == intake(ap0, orig, i as int, h, period, stake, utxos, dg, recs).0,
                same_views(out@, orig.subrange(0, i as int)),
            decreases src@.len(),
        {
            let ghost k = src@.len();
            let t = src.pop().unwrap();
            assert(t == orig[i as int]);
            assert(src@ =~= s0.subrange(0, k - 1));
            let ghost tg = t;
            let ghost recs_old = recs;
            let ghost ap_i = self.active_proposals@;
            assert(intake_fits(utxos, orig[i as int], dg));
            let checked = check_inputs_and_scripts(&self.utxo_set, &t, h);
            let (failure, copy, gr) = self.take_in_one(t, h, digests, checked);
            let ghost rec = gr@;
            proof {
                lemma_recs_extend(ap0, orig, i as int, h, period, stake, utxos, dg, recs_old, rec, tickets, mns);
                recs = recs_old.push(rec);
            }
            match failure {
                Some(e) => {
                    proof {
                        let full = lemma_intake_close(ap0, orig, i as int, h, period, stake, utxos, dg, recs, tickets, mns);
                        let g = intake(ap0, orig, orig.len() as int, h, period, stake, utxos, dg, full);
                        assert(g.1 == Some(e@));
                        assert(self.active_proposals@ == g.0);
                        assert(recs_fit(old(self).active_proposals@, orig, h, old(self).params.voting_period_blocks,
                            old(self).params.proposal_stake_amount, old(self).utxo_set@, digests.map(), full,
                            old(self).live_tickets@, old(self).masternode_list.entries()));
                        assert(g.1 matches Some(m) && e@ == m);
                    }
                    return Err(e);
                },
                None => {},
            }
            out.push(copy);
            proof {
                assert(out@.last()@ == orig[i as int]@);
                assert forall|j: int| 0 <= j < out@.len() implies #[trigger] out@[j]@ == orig.subrange(0, i + 1)[j]@ by {
                    if j < i {
                        assert(orig.subrange(0, i as int)[j] == orig.subrange(0, i + 1)[j]);
                    }
                }
            }
            i = i + 1;
        }
        proof {
            assert(orig.subrange(0, orig.len() as int) =~= orig);
            assert(recs_fit(old(self).active_proposals@, orig, h, old(self).params.voting_period_blocks,
                old(self).params.proposal_stake_amount, old(self).utxo_set@, digests.map(), recs,
                old(self).live_tickets@, old(self).masternode_list.entries()));
            assert(same_views(out@, orig));
        }
        Ok(out)
    }
}


} // verus!
