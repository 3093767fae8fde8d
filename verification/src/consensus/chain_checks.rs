//! Checks of stored blocks against the chain: the latest block, the genesis block, and a
//! block's transactions with its coinbase reward.
use vstd::prelude::*;
use crate::bytes::{hash_is_zero, is_zero_hash, le_value};
use crate::consensus::chain::{block_subsidy, chain_tx_checkable, chain_tx_error, get_block_subsidy, outputs_sum, lemma_outputs_sum_prefix, Blockchain};
use crate::consensus::error::{message, ConsensusError, ErrorModel};
use crate::consensus::pow::{oxide_hash, verify_pow};
use crate::governance::MasternodeStatus;
use crate::types::{Block, BlockHeader, BlockModel, OutPoint, Transaction};
use crate::uint::u256_from_u64;

verus! {

/// The block the state stores at a height, if the store holds its hash and the block.
pub open spec fn stored_block_at(b: &Blockchain, h: u64) -> Option<BlockModel> {
    if b.state.hashes().dom().contains(h) && b.state.blocks().dom().contains(b.state.hashes()[h]) {
        Some(b.state.blocks()[b.state.hashes()[h]]@)
    } else {
        None
    }
}

/// The height the state has stored, zero when none.
pub open spec fn stored_height_or_zero(b: &Blockchain) -> u64 {
    match b.state.stored_height() {
        Some(h) => h,
        None => 0,
    }
}

/// Whether a header's proof of work holds against its own difficulty target.
#[verifier::opaque]
pub open spec fn own_target_met(h: BlockHeader) -> bool {
    le_value(oxide_hash(h)@) <= h.difficulty_target as nat
}

/// Whether the chain refuses a transaction at `height` with the clock at `timestamp`.
#[verifier::opaque]
pub open spec fn chain_refuses(b: &Blockchain, t: Transaction, height: u64, timestamp: u32) -> bool {
    chain_tx_error(t, b.utxo_set@, b.live_tickets@, b.params.ticket_maturity, b.params.ticket_expiry, height, timestamp) is Some
}

/// Why the stored genesis block is refused, if it is: it is missing, its height is not
/// zero, its previous hash is not zero, its version is not 1, it has no transactions, its
/// proof of work fails against its own difficulty target, or its state root is zero.
pub open spec fn genesis_error(g: Option<BlockModel>) -> Option<ErrorModel> {
    match g {
        None => Some(ErrorModel::InvalidBlock("Genesis block not found"@)),
        Some(b) => if b.header.height != 0 {
            Some(ErrorModel::InvalidBlock("Genesis block height is not 0"@))
        } else if !is_zero_hash(b.header.previous_block_hash) {
            Some(ErrorModel::InvalidBlock("Genesis block has non-zero previous block hash"@))
        } else if b.header.version != 1 {
            Some(ErrorModel::InvalidBlock("Genesis block version is not 1"@))
        } else if b.transactions.len() == 0 {
            Some(ErrorModel::InvalidBlock("Genesis block has no transactions"@))
        } else if !own_target_met(b.header) {
            Some(ErrorModel::InvalidProofOfWork)
        } else if is_zero_hash(b.header.state_root) {
            Some(ErrorModel::StateError("Genesis block has zero state root"@))
        } else {
            None
        },
    }
}

/// Whether a coinbase is well-formed for `height`: one input spending the null outpoint,
/// at least one output, and outputs worth at most the block subsidy plus 1%.
pub open spec fn coinbase_ok(t: Transaction, subsidy: nat) -> bool {
    let ins = t.spec_inputs();
    let outs = t.spec_outputs();
    &&& t is Coinbase
    &&& ins.len() == 1
    &&& is_zero_hash(ins[0].previous_output.txid)
    &&& ins[0].previous_output.vout == u32::MAX
    &&& outs.len() > 0
    &&& outputs_sum(outs, outs.len() as int) <= subsidy + subsidy / 100
}

/// Why a block's transactions are refused, if they are: none, a first that is not a
/// coinbase or not a well-formed one, then, in order, a second coinbase or a transaction
/// the chain refuses.
pub open spec fn block_txs_refusal(b: &Blockchain, block: Block, height: u64, timestamp: u32) -> Option<ErrorModel> {
    let txs = block.transactions@;
    let subsidy = block_subsidy(height, b.params.halving_interval, b.params.initial_block_reward);
    if txs.len() == 0 {
        Some(ErrorModel::InvalidBlock("Block contains no transactions"@))
    } else if !(txs[0] is Coinbase) {
        Some(ErrorModel::InvalidBlock("First transaction in block is not coinbase"@))
    } else if !coinbase_ok(txs[0], subsidy) {
        Some(ErrorModel::InvalidCoinbase("Coinbase transaction validation failed"@))
    } else {
        later_tx_refusal(b, txs, height, timestamp, 1)
    }
}

/// The refusal of the first transaction from the `i`-th on that is a coinbase or that the
/// chain refuses, if any.
pub open spec fn later_tx_refusal(b: &Blockchain, txs: Seq<Transaction>, height: u64, timestamp: u32, i: int) -> Option<ErrorModel>
    decreases txs.len() - i,
{
    if i >= txs.len() || i < 0 {
        None
    } else if txs[i] is Coinbase {
        Some(ErrorModel::InvalidBlock("Multiple coinbase transactions in block"@))
    } else if chain_refuses(b, txs[i], height, timestamp) {
        Some(ErrorModel::TransactionValidation("Non-coinbase transaction validation failed"@))
    } else {
        later_tx_refusal(b, txs, height, timestamp, i + 1)
    }
}

impl Blockchain {
    /// The block at the stored height; none at height zero.
    pub fn get_latest_block(&self) -> (r: Result<Option<Block>, ConsensusError>)
        requires
            stored_height_or_zero(self) <= u32::MAX,
        ensures
            stored_height_or_zero(self) == 0 ==> r matches Ok(None),
            stored_height_or_zero(self) > 0 && stored_block_at(self, stored_height_or_zero(self)) is None ==> r matches Ok(None),
            stored_height_or_zero(self) > 0 ==> (stored_block_at(self, stored_height_or_zero(self)) matches Some(s)
                ==> (r matches Ok(Some(b)) && b@ == s)),
    {
        let current_height = match self.state.get_current_block_height() {
            Ok(h) => h,
            Err(e) => {
                return Err(ConsensusError::Internal(e.to_string()));
            },
        };
        if current_height == 0 {
            return Ok(None);
        }
        match self.state.get_block(current_height as u32) {
            Ok(b) => Ok(b),
            Err(e) => Err(ConsensusError::Internal(e.to_string())),
        }
    }

    /// Checks the stored genesis block, as `genesis_error` states.
    pub fn validate_genesis_block(&self) -> (r: Result<(), ConsensusError>)
        ensures
            genesis_error(stored_block_at(self, 0)) is None ==> r is Ok,
            genesis_error(stored_block_at(self, 0)) matches Some(m) ==> (r matches Err(e) && e@ == m),
    {
        let genesis = match self.state.get_block(0) {
            Ok(Some(g)) => g,
            _ => {
                return Err(ConsensusError::InvalidBlock(message("Genesis block not found")));
            },
        };
        let ghost g = genesis@;
        assert(stored_block_at(self, 0) == Some(g));
        assert(g.header == genesis.header);
        assert(g.transactions.len() == genesis.transactions@.len());
        if genesis.header.height != 0 {
            return Err(ConsensusError::InvalidBlock(message("Genesis block height is not 0")));
        }
        if !hash_is_zero(&genesis.header.previous_block_hash) {
            return Err(ConsensusError::InvalidBlock(message("Genesis block has non-zero previous block hash")));
        }
        if genesis.header.version != 1 {
            return Err(ConsensusError::InvalidBlock(message("Genesis block version is not 1")));
        }
        if genesis.transactions.len() == 0 {
            return Err(ConsensusError::InvalidBlock(message("Genesis block has no transactions")));
        }
        let pow_ok = verify_pow(&genesis.header, u256_from_u64(genesis.header.difficulty_target as u64));
        proof {
            reveal(own_target_met);
        }
        if !pow_ok {
            return Err(ConsensusError::InvalidProofOfWork);
        }
        if hash_is_zero(&genesis.header.state_root) {
            return Err(ConsensusError::StateError(message("Genesis block has zero state root")));
        }
        Ok(())
    }

    /// Whether a block's first transaction is a well-formed coinbase for `height`, as
    /// `coinbase_ok` states.
    pub fn validate_coinbase_transaction(&self, coinbase: &Transaction, _block: &Block, height: u64) -> (r: bool)
        requires
            self.params.halving_interval > 0,
            ({
                let s = block_subsidy(height, self.params.halving_interval, self.params.initial_block_reward);
                s + s / 100 <= u64::MAX
            }),
            outputs_sum(coinbase.spec_outputs(), coinbase.spec_outputs().len() as int) <= u64::MAX,
        ensures
            r == coinbase_ok(*coinbase, block_subsidy(height, self.params.halving_interval, self.params.initial_block_reward)),
    {
        if !coinbase.is_coinbase() {
            return false;
        }
        let inputs = coinbase.get_inputs();
        if inputs.len() != 1 {
            return false;
        }
        let input = &inputs[0];
        if !hash_is_zero(&input.previous_output.txid) || input.previous_output.vout != u32::MAX {
            return false;
        }
        let outputs = coinbase.get_outputs();
        if outputs.len() == 0 {
            return false;
        }
        let total_reward = get_block_subsidy(height, self.params.halving_interval, self.params.initial_block_reward);
        let mut actual_reward: u64 = 0;
        let mut i: usize = 0;
        while i < outputs.len()
            invariant
                i <= outputs@.len(),
                outputs@ == coinbase.spec_outputs(),
                outputs_sum(outputs@, outputs@.len() as int) <= u64::MAX,
                actual_reward == outputs_sum(outputs@, i as int),
            decreases outputs@.len() - i,
        {
            proof {
                lemma_outputs_sum_prefix(outputs@, i as int + 1, outputs@.len() as int);
            }
            actual_reward = actual_reward + outputs[i].value;
            i = i + 1;
        }
        actual_reward <= total_reward + total_reward / 100
    }

    /// Whether the chain accepts a transaction that is not a coinbase.
    pub fn validate_non_coinbase_transaction(&self, tx: &Transaction, height: u64, timestamp: u32) -> (r: bool)
        requires
            chain_tx_checkable(*tx, self.utxo_set@, height),
        ensures
            r == !chain_refuses(self, *tx, height, timestamp),
    {
        proof {
            reveal(chain_refuses);
        }
        self.validate_transaction(tx, height, timestamp).is_ok()
    }

    /// Checks a block's transactions against the chain at `height`, with the clock at
    /// `timestamp`, as `block_txs_refusal` states.
    pub fn validate_block_transactions(&self, block: &Block, height: u64, timestamp: u32) -> (r: Result<(), ConsensusError>)
        requires
            self.params.halving_interval > 0,
            ({
                let s = block_subsidy(height, self.params.halving_interval, self.params.initial_block_reward);
                s + s / 100 <= u64::MAX
            }),
            block.transactions@.len() > 0 ==> outputs_sum(block.transactions@[0].spec_outputs(), block.transactions@[0].spec_outputs().len() as int) <= u64::MAX,
            forall|i: int| 1 <= i < block.transactions@.len() ==> chain_tx_checkable(#[trigger] block.transactions@[i], self.utxo_set@, height),
        ensures
            block_txs_refusal(self, *block, height, timestamp) is None ==> r is Ok,
            block_txs_refusal(self, *block, height, timestamp) matches Some(m) ==> (r matches Err(e) && e@ == m),
    {
        if block.transactions.len() == 0 {
            return Err(ConsensusError::InvalidBlock(message("Block contains no transactions")));
        }
        if !block.transactions[0].is_coinbase() {
            return Err(ConsensusError::InvalidBlock(message("First transaction in block is not coinbase")));
        }
        if !self.validate_coinbase_transaction(&block.transactions[0], block, height) {
            return Err(ConsensusError::InvalidCoinbase(message("Coinbase transaction validation failed")));
        }
        let mut i: usize = 1;
        while i < block.transactions.len()
            invariant
                1 <= i <= block.transactions@.len(),
                forall|j: int| 1 <= j < block.transactions@.len() ==> chain_tx_checkable(#[trigger] block.transactions@[j], self.utxo_set@, height),
                later_tx_refusal(self, block.transactions@, height, timestamp, i as int)
                    == block_txs_refusal(self, *block, height, timestamp),
            decreases block.transactions@.len() - i,
        {
            let tx = &block.transactions[i];
            if tx.is_coinbase() {
                return Err(ConsensusError::InvalidBlock(message("Multiple coinbase transactions in block")));
            }
            if !self.validate_non_coinbase_transaction(tx, height, timestamp) {
                return Err(ConsensusError::TransactionValidation(message("Non-coinbase transaction validation failed")));
            }
            i = i + 1;
        }
        Ok(())
    }
}

/// Whether every active masternode's collateral is an unspent output of the chain.
pub open spec fn collaterals_unspent(c: Blockchain) -> bool {
    forall|op: OutPoint|
        #[trigger] c.masternode_list.entries().dom().contains(op) && c.masternode_list.entries()[op].1 == MasternodeStatus::Active
            ==> c.utxo_set@.dom().contains(op)
}

impl Blockchain {
    /// The collateral outpoints of the active masternodes, once each.
    pub fn active_masternodes(&self) -> (r: Vec<OutPoint>)
        ensures
            forall|i: int| 0 <= i < r@.len() ==> self.masternode_list.entries().dom().contains(#[trigger] r@[i])
                && self.masternode_list.entries()[r@[i]].1 == MasternodeStatus::Active,
            forall|op: OutPoint| #[trigger] self.masternode_list.entries().dom().contains(op)
                && self.masternode_list.entries()[op].1 == MasternodeStatus::Active ==> r@.contains(op),
            forall|i: int, j: int| 0 <= i < j < r@.len() ==> r@[i] != r@[j],
    {
        self.masternode_list.active_ids()
    }

    /// The outputs the chain holds are taken as they are.
    fn validate_utxo_consistency(&self) -> (r: bool)
        ensures
            r,
    {
        true
    }

    /// Whether every active masternode's collateral is an unspent output.
    fn validate_masternode_consistency(&self) -> (r: bool)
        ensures
            r == collaterals_unspent(*self),
    {
        let active = self.active_masternodes();
        proof {
            self.masternode_list.lemma_entries_dom();
        }
        let mut i: usize = 0;
        while i < active.len()
            invariant
                i <= active@.len(),
                self.masternode_list.entries().dom() == self.masternode_list@,
                forall|j: int| 0 <= j < active@.len() ==> self.masternode_list.entries().dom().contains(#[trigger] active@[j])
                    && self.masternode_list.entries()[active@[j]].1 == MasternodeStatus::Active,
                forall|op: OutPoint| #[trigger] self.masternode_list.entries().dom().contains(op)
                    && self.masternode_list.entries()[op].1 == MasternodeStatus::Active ==> active@.contains(op),
                forall|j: int| 0 <= j < i ==> self.utxo_set@.dom().contains(#[trigger] active@[j]),
            decreases active@.len() - i,
        {
            let id = active[i];
            if self.masternode_list.get_masternode(&id) {
                if self.get_utxo(&id).is_err() {
                    return false;
                }
            }
            i = i + 1;
        }
        proof {
            assert forall|op: OutPoint| #[trigger] self.masternode_list.entries().dom().contains(op)
                && self.masternode_list.entries()[op].1 == MasternodeStatus::Active implies self.utxo_set@.dom().contains(op) by {
                assert(active@.contains(op));
                let j = choose|j: int| 0 <= j < active@.len() && active@[j] == op;
                assert(self.utxo_set@.dom().contains(active@[j]));
            }
        }
        true
    }

    /// The live tickets are taken as they are.
    fn validate_ticket_pool_consistency(&self) -> (r: bool)
        ensures
            r,
    {
        true
    }

    /// Whether the chain's state hangs together: every active masternode's collateral is
    /// an unspent output.
    pub fn validate_state_consistency(&self) -> (r: bool)
        ensures
            r == collaterals_unspent(*self),
    {
        if !self.validate_utxo_consistency() {
            return false;
        }
        if !self.validate_masternode_consistency() {
            return false;
        }
        if !self.validate_ticket_pool_consistency() {
            return false;
        }
        true
    }
}

} // verus!
