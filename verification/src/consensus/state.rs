//! The chain state a node keeps: its height and tip, the live tickets, the unspent
//! outputs and the proposals under vote, with a store of blocks by hash, block hashes by
//! height and outputs by outpoint. Writing the store to disk and reading it back is done
//! around this module.
use vstd::prelude::*;
use std::sync::Arc;
use crate::assoc::AssocList;
use crate::bytes::is_zero_hash;
use crate::consensus::chain::{block_subsidy, get_block_subsidy, Blockchain};
use crate::consensus::error::{message, ConsensusError};
use crate::consensus::governance_state::ActiveProposals;
use crate::consensus::pos::LiveTicketsPool;
use crate::consensus::utxo_set::{apply_block_spec, UtxoSet};
use crate::crypto::{blake3_digest, blake3_hash};
use crate::encoding::spec_header_hash;
use crate::types::{Block, BlockModel, OutPoint, Ticket, TicketModel, TicketStatus, Transaction, TransactionModel, TxOutput, TxOutputModel};

verus! {

/// The chain state a node keeps.
pub struct BlockchainState {
    pub current_height: u64,
    pub tip: [u8; 32],
    pub live_tickets: LiveTicketsPool,
    pub utxo_set: UtxoSet,
    pub active_proposals: ActiveProposals,
    pub db: BlockStore,
}

/// What the state stores besides its fields: the height written, blocks by hash, block
/// hashes by height and outputs by outpoint.
pub struct BlockStore {
    stored_height: Option<u64>,
    blocks: AssocList<[u8; 32], Block>,
    block_hashes: AssocList<u64, [u8; 32]>,
    stored_utxos: AssocList<OutPoint, (TxOutput, u64, bool)>,
}

/// A stored output: its value and script, its height and whether a coinbase made it.
pub open spec fn stored_utxo_model(u: (TxOutput, u64, bool)) -> (TxOutputModel, u64, bool) {
    (u.0@, u.1, u.2)
}

/// Whether a transaction would be refused when a block is applied to the state: a ticket
/// purchase whose address is not a 32-byte key.
pub open spec fn ticket_tx_error(t: TransactionModel) -> bool {
    t matches TransactionModel::TicketPurchase { ticket_address, .. } && ticket_address.len() != 32
}

/// The live tickets after one transaction of a block at `height` is applied: a purchase
/// adds a live ticket keyed by the BLAKE3 digest of its address, worth the locked amount;
/// a redemption removes its ticket.
pub open spec fn ticket_effect(m: Map<[u8; 32], TicketModel>, t: TransactionModel, height: u64) -> Map<[u8; 32], TicketModel> {
    match t {
        TransactionModel::TicketPurchase { locked_amount, ticket_address, .. } => m.insert(
            blake3_digest(ticket_address),
            TicketModel {
                id: blake3_digest(ticket_address),
                pubkey: ticket_address,
                height,
                value: locked_amount,
                status: TicketStatus::Live,
            },
        ),
        TransactionModel::TicketRedemption { ticket_id, .. } => m.remove(ticket_id),
        _ => m,
    }
}

/// The live tickets after the first `n` transactions.
pub open spec fn tickets_after(m: Map<[u8; 32], TicketModel>, txs: Seq<TransactionModel>, n: int, height: u64) -> Map<[u8; 32], TicketModel>
    decreases n,
{
    if n <= 0 {
        m
    } else {
        ticket_effect(tickets_after(m, txs, n - 1, height), txs[n - 1], height)
    }
}

/// No transaction among the first `n` is refused.
pub open spec fn ticket_txs_ok(txs: Seq<TransactionModel>, n: int) -> bool {
    forall|i: int| 0 <= i < n ==> !ticket_tx_error(#[trigger] txs[i])
}

impl BlockchainState {
    /// The height the store holds, if any was written.
    pub closed spec fn stored_height(&self) -> Option<u64> {
        self.db.stored_height
    }

    /// The stored blocks, by hash.
    pub closed spec fn blocks(&self) -> Map<[u8; 32], Block> {
        self.db.blocks.map()
    }

    /// The stored block hashes, by height.
    pub closed spec fn hashes(&self) -> Map<u64, [u8; 32]> {
        self.db.block_hashes.map()
    }

    /// The stored blocks with their hashes, in the order they were first stored.
    pub closed spec fn block_seq(&self) -> Seq<([u8; 32], Block)> {
        self.db.blocks.seq()
    }

    /// The stored block hashes with their heights, in the order they were first stored.
    pub closed spec fn hash_seq(&self) -> Seq<(u64, [u8; 32])> {
        self.db.block_hashes.seq()
    }

    /// The stored outputs with their outpoints, in the order they were first stored.
    pub closed spec fn utxo_seq(&self) -> Seq<(OutPoint, (TxOutput, u64, bool))> {
        self.db.stored_utxos.seq()
    }

    /// The stored outputs, by outpoint.
    pub closed spec fn stored_utxos(&self) -> Map<OutPoint, (TxOutputModel, u64, bool)> {
        self.db.stored_utxos.map().map_values(|u: (TxOutput, u64, bool)| stored_utxo_model(u))
    }

    /// An empty state at height zero with a zero tip.
    pub fn new() -> (r: BlockchainState)
        ensures
            r.current_height == 0,
            is_zero_hash(r.tip),
            r.live_tickets@ == Map::<[u8; 32], TicketModel>::empty(),
            r.utxo_set@ == Map::<OutPoint, crate::types::UtxoModel>::empty(),
            r.active_proposals@ == Map::<[u8; 32], crate::consensus::governance_state::ProposalEntry>::empty(),
            r.stored_height() is None,
            r.blocks() == Map::<[u8; 32], Block>::empty(),
            r.hashes() == Map::<u64, [u8; 32]>::empty(),
            r.stored_utxos() == Map::<OutPoint, (TxOutputModel, u64, bool)>::empty(),
    {
        let r = BlockchainState {
            current_height: 0,
            tip: [0u8; 32],
            live_tickets: LiveTicketsPool::new(),
            utxo_set: UtxoSet::new(),
            active_proposals: ActiveProposals::new(),
            db: BlockStore {
                stored_height: None,
                blocks: AssocList::new(),
                block_hashes: AssocList::new(),
                stored_utxos: AssocList::new(),
            },
        };
        assert(r.stored_utxos() =~= Map::<OutPoint, (TxOutputModel, u64, bool)>::empty());
        r
    }

    /// Moves the tip; the stored height is left as it is.
    pub fn update_tip(&mut self, new_tip_hash: [u8; 32], new_height: u64) -> (r: Result<(), ConsensusError>)
        ensures
            r is Ok,
            final(self).tip == new_tip_hash,
            final(self).current_height == new_height,
            final(self).stored_height() == old(self).stored_height(),
            final(self).blocks() == old(self).blocks(),
            final(self).hashes() == old(self).hashes(),
            final(self).stored_utxos() == old(self).stored_utxos(),
            final(self).live_tickets@ == old(self).live_tickets@,
            final(self).utxo_set@ == old(self).utxo_set@,
            final(self).active_proposals@ == old(self).active_proposals@,
    {
        self.tip = new_tip_hash;
        self.current_height = new_height;
        Ok(())
    }

    /// Removes a block by its hash: the store keeps blocks, so nothing changes.
    pub fn remove_block_by_hash(&mut self, _block_hash: &[u8; 32]) -> (r: Result<(), ConsensusError>)
        ensures
            r is Ok,
            final(self).blocks() == old(self).blocks(),
            final(self).hashes() == old(self).hashes(),
            final(self).current_height == old(self).current_height,
            final(self).tip == old(self).tip,
    {
        Ok(())
    }

    /// Removes a block by its height: the store keeps blocks, so nothing changes.
    pub fn remove_block_by_height(&mut self, _height: u64) -> (r: Result<(), ConsensusError>)
        ensures
            r is Ok,
            final(self).blocks() == old(self).blocks(),
            final(self).hashes() == old(self).hashes(),
            final(self).current_height == old(self).current_height,
            final(self).tip == old(self).tip,
    {
        Ok(())
    }

    /// Accepts every transaction: the state holds no rule of its own.
    pub fn validate_transaction(&self, _tx: &Transaction, _current_block_height: u64) -> (r: Result<(), ConsensusError>)
        ensures
            r is Ok,
    {
        Ok(())
    }

    /// The block subsidy at a height, as `block_subsidy` states.
    pub fn get_block_subsidy(&self, height: u64, halving_interval: u64, initial_block_reward: u64) -> (r: u64)
        requires
            halving_interval > 0,
        ensures
            r == block_subsidy(height, halving_interval, initial_block_reward),
    {
        get_block_subsidy(height, halving_interval, initial_block_reward)
    }

    /// The output stored under an outpoint, with its height and whether a coinbase made it.
    pub fn get_utxo(&self, outpoint: &OutPoint) -> (r: Result<Option<(TxOutput, u64, bool)>, ConsensusError>)
        ensures
            self.stored_utxos().dom().contains(*outpoint) ==> (r matches Ok(Some(u)) && stored_utxo_model(u) == self.stored_utxos()[*outpoint]),
            !self.stored_utxos().dom().contains(*outpoint) ==> r matches Ok(None),
    {
        match self.db.stored_utxos.get(outpoint) {
            Some(u) => Ok(Some((u.0.deep_copy(), u.1, u.2))),
            None => Ok(None),
        }
    }

    /// Stores an output under an outpoint, or removes what is stored there; returns what
    /// was written.
    pub fn update_utxo_set(&mut self, outpoint: &OutPoint, output: Option<&TxOutput>, height: u64, is_coinbase: bool)
        -> (r: Result<Option<(TxOutput, u64, bool)>, ConsensusError>)
        ensures
            output matches Some(o) ==> final(self).stored_utxos() == old(self).stored_utxos().insert(*outpoint, (o@, height, is_coinbase))
                && (r matches Ok(Some(u)) && stored_utxo_model(u) == (o@, height, is_coinbase)),
            output is None ==> final(self).stored_utxos() == old(self).stored_utxos().remove(*outpoint) && r matches Ok(None),
            final(self).blocks() == old(self).blocks(),
            final(self).hashes() == old(self).hashes(),
            final(self).stored_height() == old(self).stored_height(),
            final(self).current_height == old(self).current_height,
            final(self).tip == old(self).tip,
    {
        match output {
            Some(o) => {
                self.db.stored_utxos.insert(*outpoint, (o.deep_copy(), height, is_coinbase));
                assert(self.stored_utxos() =~= old(self).stored_utxos().insert(*outpoint, (o@, height, is_coinbase)));
                Ok(Some((o.deep_copy(), height, is_coinbase)))
            },
            None => {
                self.db.stored_utxos.remove(outpoint);
                assert(self.stored_utxos() =~= old(self).stored_utxos().remove(*outpoint));
                Ok(None)
            },
        }
    }

    /// Applies a block: the height and tip move to it; then, transaction by transaction,
    /// ticket purchases add live tickets and redemptions remove them, stopping with an
    /// error at a purchase whose address is not a 32-byte key; then the unspent outputs
    /// are updated and the height stored.
    pub fn apply_block(&mut self, block: &Block) -> (r: Result<(), ConsensusError>)
        ensures
            ({
                let txs = block.transactions@.map_values(|t: Transaction| t@);
                let h = block.header.height;
                &&& final(self).current_height == h
                &&& final(self).tip == spec_header_hash(block.header)
                &&& final(self).blocks() == old(self).blocks()
                &&& final(self).hashes() == old(self).hashes()
                &&& final(self).stored_utxos() == old(self).stored_utxos()
                &&& final(self).active_proposals@ == old(self).active_proposals@
                &&& (r is Ok <==> ticket_txs_ok(txs, txs.len() as int))
                &&& r is Ok ==> final(self).live_tickets@ == tickets_after(old(self).live_tickets@, txs, txs.len() as int, h)
                    && final(self).utxo_set@ == apply_block_spec(old(self).utxo_set@, *block, h)
                    && final(self).stored_height() == Some(h)
                &&& r is Err ==> (r matches Err(ConsensusError::InvalidTicket(m)) && m@ == "Invalid public key length in ticket address."@)
                    && final(self).utxo_set@ == old(self).utxo_set@
                    && final(self).stored_height() == old(self).stored_height()
                    && exists|k: int| 0 <= k < txs.len() && ticket_txs_ok(txs, k) && #[trigger] ticket_tx_error(txs[k])
                        && final(self).live_tickets@ == tickets_after(old(self).live_tickets@, txs, k, h)
            }),
    {
        let ghost txs = block.transactions@.map_values(|t: Transaction| t@);
        let height = block.header.height;
        self.current_height = height;
        self.tip = block.hash();
        let mut i: usize = 0;
        while i < block.transactions.len()
            invariant
                i <= block.transactions@.len(),
                txs == block.transactions@.map_values(|t: Transaction| t@),
                height == block.header.height,
                ticket_txs_ok(txs, i as int),
                self.live_tickets@ == tickets_after(old(self).live_tickets@, txs, i as int, height),
                self.current_height == height,
                self.tip == spec_header_hash(block.header),
                self.blocks() == old(self).blocks(),
                self.hashes() == old(self).hashes(),
                self.stored_utxos() == old(self).stored_utxos(),
                self.stored_height() == old(self).stored_height(),
                self.utxo_set@ == old(self).utxo_set@,
                self.active_proposals@ == old(self).active_proposals@,
            decreases block.transactions@.len() - i,
        {
            assert(txs[i as int] == block.transactions@[i as int]@);
            match &block.transactions[i] {
                Transaction::TicketPurchase { locked_amount, ticket_address, .. } => {
                    if ticket_address.len() != 32 {
                        assert(ticket_tx_error(txs[i as int]));
                        return Err(ConsensusError::InvalidTicket(message("Invalid public key length in ticket address.")));
                    }
                    let commitment = blake3_hash(ticket_address.as_slice());
                    let ticket = Ticket {
                        id: commitment,
                        pubkey: crate::bytes::copy_bytes(ticket_address.as_slice()),
                        height,
                        value: *locked_amount,
                        status: TicketStatus::Live,
                    };
                    let _ = self.live_tickets.add_ticket(ticket);
                },
                Transaction::TicketRedemption { ticket_id, .. } => {
                    let _ = self.live_tickets.remove_ticket(ticket_id);
                },
                _ => {},
            }
            i = i + 1;
        }
        self.utxo_set.apply_block(block, height);
        self.db.stored_height = Some(height);
        Ok(())
    }

    /// Stores a block under its hash and its hash under its height.
    pub fn put_block(&mut self, block: &Block) -> (r: Result<(), ConsensusError>)
        requires
            block.header.height <= u32::MAX,
        ensures
            r is Ok,
            final(self).blocks().dom() == old(self).blocks().dom().insert(spec_header_hash(block.header)),
            final(self).blocks()[spec_header_hash(block.header)]@ == block@,
            forall|k: [u8; 32]| k != spec_header_hash(block.header) && old(self).blocks().dom().contains(k)
                ==> #[trigger] final(self).blocks()[k] == old(self).blocks()[k],
            final(self).hashes() == old(self).hashes().insert(block.header.height, spec_header_hash(block.header)),
            final(self).stored_height() == old(self).stored_height(),
            final(self).stored_utxos() == old(self).stored_utxos(),
            final(self).current_height == old(self).current_height,
            final(self).tip == old(self).tip,
    {
        let block_hash = block.hash();
        let copy = block.deep_copy();
        self.db.blocks.insert(block_hash, copy);
        self.put_block_hash(block.header.height as u32, block_hash)
    }

    /// Stores a block hash under its height.
    pub fn put_block_hash(&mut self, height: u32, hash: [u8; 32]) -> (r: Result<(), ConsensusError>)
        ensures
            r is Ok,
            final(self).hashes() == old(self).hashes().insert(height as u64, hash),
            final(self).blocks() == old(self).blocks(),
            final(self).stored_height() == old(self).stored_height(),
            final(self).stored_utxos() == old(self).stored_utxos(),
            final(self).current_height == old(self).current_height,
            final(self).tip == old(self).tip,
    {
        self.db.block_hashes.insert(height as u64, hash);
        Ok(())
    }

    /// The block hash stored under a height.
    pub fn get_block_hash(&self, height: u64) -> (r: Result<Option<[u8; 32]>, ConsensusError>)
        ensures
            self.hashes().dom().contains(height) ==> r == Ok::<Option<[u8; 32]>, ConsensusError>(Some(self.hashes()[height])),
            !self.hashes().dom().contains(height) ==> r == Ok::<Option<[u8; 32]>, ConsensusError>(None),
    {
        match self.db.block_hashes.get(&height) {
            Some(h) => Ok(Some(*h)),
            None => Ok(None),
        }
    }

    /// The block stored under the hash stored under a height.
    pub fn get_block(&self, height: u32) -> (r: Result<Option<Block>, ConsensusError>)
        ensures
            r is Ok,
            ({
                let h = height as u64;
                &&& (self.hashes().dom().contains(h) && self.blocks().dom().contains(self.hashes()[h]))
                    ==> (r matches Ok(Some(b)) && b@ == self.blocks()[self.hashes()[h]]@)
                &&& !(self.hashes().dom().contains(h) && self.blocks().dom().contains(self.hashes()[h])) ==> r matches Ok(None)
            }),
    {
        match self.db.block_hashes.get(&(height as u64)) {
            Some(hash) => match self.db.blocks.get(hash) {
                Some(b) => Ok(Some(b.deep_copy())),
                None => Ok(None),
            },
            None => Ok(None),
        }
    }

    /// The stored height; zero when none was stored.
    pub fn get_current_block_height(&self) -> (r: Result<u64, ConsensusError>)
        ensures
            r == Ok::<u64, ConsensusError>(match self.stored_height() {
                Some(h) => h,
                None => 0,
            }),
    {
        match self.db.stored_height {
            Some(h) => Ok(h),
            None => Ok(0),
        }
    }

    /// The stored blocks, in the order they were first stored; for writing the store out.
    pub fn block_entries(&self) -> (r: Vec<Block>)
        ensures
            r@.len() == self.block_seq().len(),
            forall|i: int| 0 <= i < r@.len() ==> #[trigger] r@[i]@ == self.block_seq()[i].1@,
    {
        let entries = self.db.blocks.entries();
        let mut r: Vec<Block> = Vec::new();
        let mut i: usize = 0;
        while i < entries.len()
            invariant
                i <= entries@.len(),
                entries@ == self.db.blocks.seq(),
                r@.len() == i,
                forall|j: int| 0 <= j < i ==> #[trigger] r@[j]@ == entries@[j].1@,
            decreases entries@.len() - i,
        {
            r.push(entries[i].1.deep_copy());
            i = i + 1;
        }
        r
    }

    /// The stored block hashes with their heights, in the order they were first stored;
    /// for writing the store out.
    pub fn hash_entries(&self) -> (r: Vec<(u64, [u8; 32])>)
        ensures
            r@ == self.hash_seq(),
    {
        let entries = self.db.block_hashes.entries();
        let mut r: Vec<(u64, [u8; 32])> = Vec::new();
        let mut i: usize = 0;
        while i < entries.len()
            invariant
                i <= entries@.len(),
                entries@ == self.db.block_hashes.seq(),
                r@ == entries@.take(i as int),
            decreases entries@.len() - i,
        {
            r.push(entries[i]);
            i = i + 1;
            assert(r@ =~= entries@.take(i as int));
        }
        assert(entries@.take(entries@.len() as int) =~= entries@);
        r
    }

    /// The stored outputs with their outpoints, in the order they were first stored; for
    /// writing the store out.
    pub fn utxo_entries(&self) -> (r: Vec<(OutPoint, (TxOutput, u64, bool))>)
        ensures
            r@.len() == self.utxo_seq().len(),
            forall|i: int| 0 <= i < r@.len() ==> (#[trigger] r@[i]).0 == self.utxo_seq()[i].0
                && stored_utxo_model(r@[i].1) == stored_utxo_model(self.utxo_seq()[i].1),
    {
        let entries = self.db.stored_utxos.entries();
        let mut r: Vec<(OutPoint, (TxOutput, u64, bool))> = Vec::new();
        let mut i: usize = 0;
        while i < entries.len()
            invariant
                i <= entries@.len(),
                entries@ == self.db.stored_utxos.seq(),
                r@.len() == i,
                forall|j: int| 0 <= j < i ==> (#[trigger] r@[j]).0 == entries@[j].0
                    && stored_utxo_model(r@[j].1) == stored_utxo_model(entries@[j].1),
            decreases entries@.len() - i,
        {
            let e = &entries[i];
            r.push((e.0, (e.1.0.deep_copy(), e.1.1, e.1.2)));
            i = i + 1;
        }
        r
    }

    /// Stores a height.
    pub fn set_current_block_height(&mut self, height: u64) -> (r: Result<(), ConsensusError>)
        ensures
            r is Ok,
            final(self).stored_height() == Some(height),
            final(self).blocks() == old(self).blocks(),
            final(self).hashes() == old(self).hashes(),
            final(self).stored_utxos() == old(self).stored_utxos(),
            final(self).current_height == old(self).current_height,
            final(self).tip == old(self).tip,
    {
        self.db.stored_height = Some(height);
        Ok(())
    }
}

/// The consensus state of a node: the chain and the state it keeps, with the tip it is at.
pub struct ConsensusState {
    pub blockchain: Arc<Blockchain>,
    pub state: BlockchainState,
    pub current_height: u64,
    pub current_tip: [u8; 32],
}

impl ConsensusState {
    /// Starts at height zero with a zero tip.
    pub fn new(blockchain: Arc<Blockchain>, state: BlockchainState) -> (r: Result<ConsensusState, ConsensusError>)
        ensures
            r matches Ok(s) && s.current_height == 0 && is_zero_hash(s.current_tip),
    {
        Ok(ConsensusState { blockchain, state, current_height: 0, current_tip: [0u8; 32] })
    }

    /// Moves to a new tip.
    pub fn update_tip(&mut self, block_hash: [u8; 32], height: u64)
        ensures
            final(self).current_tip == block_hash,
            final(self).current_height == height,
    {
        self.current_tip = block_hash;
        self.current_height = height;
    }
}

/// What `get_block` reads at a height after `put_block` stored a block there is that
/// block: its height maps to its hash, under which the block is kept.
pub proof fn law_get_block_returns_put_block(
    hashes: Map<u64, [u8; 32]>,
    blocks: Map<[u8; 32], Block>,
    b: Block,
)
    requires
        blocks.dom().contains(spec_header_hash(b.header)),
        blocks[spec_header_hash(b.header)]@ == b@,
    ensures
        ({
            let hashes2 = hashes.insert(b.header.height, spec_header_hash(b.header));
            &&& hashes2.dom().contains(b.header.height)
            &&& blocks.dom().contains(hashes2[b.header.height])
            &&& blocks[hashes2[b.header.height]]@ == b@
        }),
{
}

} // verus!
