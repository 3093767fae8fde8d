//! Taking a block onto the chain: every transaction is checked against the chain, then its
//! outputs, masternode registrations and tickets are applied, the governance proposals
//! that are due are evaluated, and the block is stored as the new tip.
use vstd::prelude::*;
use crate::bytes::is_zero_hash;
use crate::consensus::chain::{chain_tx_checkable, chain_tx_error, Blockchain, ConsensusParams};
use crate::consensus::governance_state::{ActiveProposals, ProposalEntry};
use crate::consensus::pos::LiveTicketsPool;
use crate::consensus::state::BlockchainState;
use crate::consensus::utxo_set::UtxoSet;
use crate::governance::MasternodeList;
use crate::consensus::error::{ConsensusError, ErrorModel};
use crate::consensus::governance_processing::{delays_fit, governance_of};
use crate::consensus::pos::{block_txs, purchase_error, purchases_ok, with_purchases};
use crate::consensus::reorg::{registered_from, used_ticket_ids};
use crate::consensus::utxo_set::apply_block_spec;
use crate::encoding::spec_header_hash;
use crate::governance::MasternodeStatus;
use crate::types::{Block, OutPoint, TicketModel, Transaction, TransactionModel, UtxoModel};

verus! {

/// The masternode registry after the registrations among the first `n` transactions, in
/// order: each registers its collateral as active under its operator key.
pub open spec fn registrations_after(
    m: Map<OutPoint, (Seq<u8>, MasternodeStatus)>,
    txs: Seq<TransactionModel>,
    n: int,
) -> Map<OutPoint, (Seq<u8>, MasternodeStatus)>
    decreases n,
{
    if n <= 0 {
        m
    } else {
        let before = registrations_after(m, txs, n - 1);
        match txs[n - 1] {
            TransactionModel::MasternodeRegister { collateral_outpoint, operator_public_key, .. } => before.insert(
                collateral_outpoint,
                (operator_public_key@, MasternodeStatus::Active),
            ),
            _ => before,
        }
    }
}

/// The masternodes registered by the first `n` transactions.
pub open spec fn registered_before(txs: Seq<TransactionModel>, n: int) -> Set<OutPoint> {
    Set::new(|op: OutPoint| exists|j: int| 0 <= j < n && j < txs.len() && #[trigger] txs[j].registers(op))
}

proof fn lemma_registrations_dom(m: Map<OutPoint, (Seq<u8>, MasternodeStatus)>, txs: Seq<TransactionModel>, n: int)
    requires
        0 <= n <= txs.len(),
    ensures
        registrations_after(m, txs, n).dom() == m.dom().union(registered_before(txs, n)),
    decreases n,
{
    if n > 0 {
        lemma_registrations_dom(m, txs, n - 1);
        match txs[n - 1] {
            TransactionModel::MasternodeRegister { collateral_outpoint, .. } => {
                assert(txs[n - 1].registers(collateral_outpoint));
                assert forall|op: OutPoint| registered_before(txs, n).contains(op) implies registered_before(txs, n - 1).contains(op)
                    || op == collateral_outpoint by {
                    let j = choose|j: int| 0 <= j < n && j < txs.len() && #[trigger] txs[j].registers(op);
                    if j != n - 1 {
                        assert(registered_before(txs, n - 1).contains(op));
                    }
                }
                assert forall|op: OutPoint| registered_before(txs, n - 1).contains(op) implies registered_before(txs, n).contains(op) by {
                    let j = choose|j: int| 0 <= j < n - 1 && j < txs.len() && #[trigger] txs[j].registers(op);
                }
            },
            _ => {
                assert forall|op: OutPoint| registered_before(txs, n).contains(op) implies registered_before(txs, n - 1).contains(op) by {
                    let j = choose|j: int| 0 <= j < n && j < txs.len() && #[trigger] txs[j].registers(op);
                    if j == n - 1 {
                        assert(!txs[n - 1].registers(op));
                    }
                }
                assert forall|op: OutPoint| registered_before(txs, n - 1).contains(op) implies registered_before(txs, n).contains(op) by {
                    let j = choose|j: int| 0 <= j < n - 1 && j < txs.len() && #[trigger] txs[j].registers(op);
                }
            },
        }
        assert(registrations_after(m, txs, n).dom() =~= m.dom().union(registered_before(txs, n)));
    }
}

/// The error of the first of the first `n` transactions the chain refuses, if any, each
/// checked against the chain as it stands (`chain_tx_error`).
pub open spec fn first_chain_tx_error(
    txs: Seq<Transaction>,
    utxos: Map<OutPoint, UtxoModel>,
    tickets: Map<[u8; 32], TicketModel>,
    maturity: u32,
    expiry: u32,
    height: u64,
    timestamp: u32,
    n: int,
) -> Option<ErrorModel>
    decreases n,
{
    if n <= 0 {
        None
    } else {
        match first_chain_tx_error(txs, utxos, tickets, maturity, expiry, height, timestamp, n - 1) {
            Some(e) => Some(e),
            None => chain_tx_error(txs[n - 1], utxos, tickets, maturity, expiry, height, timestamp),
        }
    }
}

proof fn lemma_first_chain_tx_error_rest(
    txs: Seq<Transaction>,
    utxos: Map<OutPoint, UtxoModel>,
    tickets: Map<[u8; 32], TicketModel>,
    maturity: u32,
    expiry: u32,
    height: u64,
    timestamp: u32,
    k: int,
    n: int,
)
    requires
        0 <= k <= n,
        first_chain_tx_error(txs, utxos, tickets, maturity, expiry, height, timestamp, k) is Some,
    ensures
        first_chain_tx_error(txs, utxos, tickets, maturity, expiry, height, timestamp, n)
            == first_chain_tx_error(txs, utxos, tickets, maturity, expiry, height, timestamp, k),
    decreases n - k,
{
    if k < n {
        lemma_first_chain_tx_error_rest(txs, utxos, tickets, maturity, expiry, height, timestamp, k, n - 1);
    }
}

/// Undoing a block takes back exactly the masternodes processing it registered: when none
/// of them was registered before, the registry is as it was.
pub proof fn law_revert_undoes_registrations(registered: Set<OutPoint>, block: Block)
    requires
        registered.disjoint(registered_from(block_txs(block), 0)),
    ensures
        registered.union(registered_from(block_txs(block), 0)).difference(registered_from(block_txs(block), 0))
            == registered,
{
    let r = registered_from(block_txs(block), 0);
    assert(registered.union(r).difference(r) =~= registered);
}

impl Blockchain {
    /// A chain with nothing on it yet, under the given parameters: a zero tip, no outputs,
    /// tickets, masternodes or proposals, and an empty store.
    pub fn new(params: ConsensusParams) -> (r: Blockchain)
        ensures
            is_zero_hash(r.tip),
            r.live_tickets@ == Map::<[u8; 32], TicketModel>::empty(),
            r.utxo_set@ == Map::<OutPoint, UtxoModel>::empty(),
            r.masternode_list@ == Set::<OutPoint>::empty(),
            r.masternode_list.entries() == Map::<OutPoint, (Seq<u8>, MasternodeStatus)>::empty(),
            r.active_proposals@ == Map::<[u8; 32], ProposalEntry>::empty(),
            r.params == params,
            r.state.current_height == 0,
            is_zero_hash(r.state.tip),
            r.state.stored_height() is None,
            r.state.blocks() == Map::<[u8; 32], Block>::empty(),
            r.state.hashes() == Map::<u64, [u8; 32]>::empty(),
    {
        Blockchain {
            tip: [0u8; 32],
            live_tickets: LiveTicketsPool::new(),
            utxo_set: UtxoSet::new(),
            masternode_list: MasternodeList::new(),
            params,
            active_proposals: ActiveProposals::new(),
            state: BlockchainState::new(),
        }
    }

    /// Registers, in order, the masternodes a block's transactions register, each as
    /// active under its operator key.
    pub(crate) fn apply_registrations(&mut self, block: &Block)
        ensures
            final(self).masternode_list.entries() == registrations_after(
                old(self).masternode_list.entries(),
                block_txs(*block),
                block.transactions@.len() as int,
            ),
            final(self).masternode_list@ == old(self).masternode_list@.union(registered_from(block_txs(*block), 0)),
            final(self).utxo_set == old(self).utxo_set,
            final(self).live_tickets == old(self).live_tickets,
            final(self).active_proposals == old(self).active_proposals,
            final(self).params == old(self).params,
            final(self).tip == old(self).tip,
            final(self).state == old(self).state,
    {
        let ghost txs = block_txs(*block);
        let ghost m0 = self.masternode_list.entries();
        let mut i: usize = 0;
        while i < block.transactions.len()
            invariant
                i <= block.transactions@.len(),
                txs == block_txs(*block),
                txs.len() == block.transactions@.len(),
                self.masternode_list.entries() == registrations_after(m0, txs, i as int),
                self.utxo_set == old(self).utxo_set,
                self.live_tickets == old(self).live_tickets,
                self.active_proposals == old(self).active_proposals,
                self.params == old(self).params,
                self.tip == old(self).tip,
                self.state == old(self).state,
            decreases block.transactions@.len() - i,
        {
            assert(txs[i as int] == block.transactions@[i as int]@);
            match &block.transactions[i] {
                Transaction::MasternodeRegister { masternode_identity, .. } => {
                    let key = crate::bytes::copy_bytes(masternode_identity.operator_public_key.as_slice());
                    self.masternode_list.register(masternode_identity.collateral_outpoint, key);
                },
                _ => {},
            }
            i = i + 1;
        }
        proof {
            let n = txs.len() as int;
            lemma_registrations_dom(m0, txs, n);
            self.masternode_list.lemma_entries_dom();
            old(self).masternode_list.lemma_entries_dom();
            assert(registered_before(txs, n) =~= registered_from(txs, 0));
            assert(self.masternode_list@ =~= old(self).masternode_list@.union(registered_from(txs, 0)));
        }
    }

    /// Takes a block onto the chain, with the clock at `current_timestamp` and governance
    /// thresholds in basis points. Every transaction is checked against the chain as it
    /// stands, and the first refused one is the error, with nothing changed. Then the
    /// block's outputs are applied, its masternodes registered, the tickets used by the
    /// chain's outputs taken out of the live pool and the block's purchases added (a
    /// malformed purchase is the error, and what was done stays); the proposals that are
    /// due are evaluated (`governance_of`; a failed parameter change is the error, and what
    /// was done stays); the block is stored and becomes the tip.
    ///
    /// The pending tickets' move to the live pool at finality is not performed here.
    #[verifier::rlimit(60)]
    pub fn process_block(
        &mut self,
        block: &Block,
        current_timestamp: u32,
        pos_quorum_bp: u64,
        mn_quorum_bp: u64,
        pos_approval_bp: u64,
        mn_approval_bp: u64,
    ) -> (r: Result<(), ConsensusError>)
        requires
            forall|i: int| 0 <= i < block.transactions@.len()
                ==> chain_tx_checkable(#[trigger] block.transactions@[i], old(self).utxo_set@, block.header.height),
            block.header.height <= u32::MAX,
            delays_fit(old(self).active_proposals@, old(self).params.activation_delay_blocks),
        ensures
            ({
                let h = block.header.height;
                let n = block.transactions@.len() as int;
                let txs = block_txs(*block);
                let first = first_chain_tx_error(block.transactions@, old(self).utxo_set@, old(self).live_tickets@,
                    old(self).params.ticket_maturity, old(self).params.ticket_expiry, h, current_timestamp, n);
                let u = apply_block_spec(old(self).utxo_set@, *block, h);
                let tk = old(self).live_tickets@.remove_keys(used_ticket_ids(u));
                let g = governance_of(old(self).params, old(self).active_proposals,
                    final(self).live_tickets@.dom().len() as u64, final(self).masternode_list.active() as u64, h,
                    pos_quorum_bp, mn_quorum_bp, pos_approval_bp, mn_approval_bp);
                &&& first matches Some(m) ==> (r matches Err(e) && e@ == m) && *final(self) == *old(self)
                &&& first is None ==> {
                    &&& final(self).utxo_set@ == u
                    &&& final(self).masternode_list.entries() == registrations_after(old(self).masternode_list.entries(), txs, n)
                    &&& final(self).masternode_list@ == old(self).masternode_list@.union(registered_from(txs, 0))
                    &&& final(self).tip == old(self).tip
                    &&& (r is Ok <==> purchases_ok(txs, n) && g.2 is None)
                    &&& purchases_ok(txs, n) ==> {
                        &&& final(self).live_tickets@ == with_purchases(tk, txs, n, h)
                        &&& final(self).params == g.0
                        &&& final(self).active_proposals@ == g.1
                        &&& g.2 matches Some(m) ==> (r matches Err(e) && e@ == m) && final(self).state == old(self).state
                    }
                    &&& r is Ok ==> {
                        &&& final(self).state.tip == spec_header_hash(block.header)
                        &&& final(self).state.current_height == h
                        &&& final(self).state.blocks().dom() == old(self).state.blocks().dom().insert(spec_header_hash(block.header))
                        &&& final(self).state.blocks()[spec_header_hash(block.header)]@ == block@
                        &&& final(self).state.hashes() == old(self).state.hashes().insert(h, spec_header_hash(block.header))
                    }
                    &&& !purchases_ok(txs, n) ==> final(self).state == old(self).state
                        && final(self).params == old(self).params
                        && final(self).active_proposals@ == old(self).active_proposals@ && exists|k: int|
                        0 <= k < n && purchases_ok(txs, k) && #[trigger] purchase_error(txs[k]) is Some
                        && (r matches Err(ConsensusError::InvalidTicket(msg)) && Some(msg@) == purchase_error(txs[k]))
                        && final(self).live_tickets@ == with_purchases(tk, txs, k, h)
                }
            }),
    {
        let h = block.header.height;
        let ghost txs_exec = block.transactions@;
        let mut i: usize = 0;
        while i < block.transactions.len()
            invariant
                i <= block.transactions@.len(),
                txs_exec == block.transactions@,
                h == block.header.height,
                forall|j: int| 0 <= j < block.transactions@.len()
                    ==> chain_tx_checkable(#[trigger] block.transactions@[j], self.utxo_set@, h),
                first_chain_tx_error(txs_exec, self.utxo_set@, self.live_tickets@, self.params.ticket_maturity,
                    self.params.ticket_expiry, h, current_timestamp, i as int) is None,
            decreases block.transactions@.len() - i,
        {
            match self.validate_transaction(&block.transactions[i], h, current_timestamp) {
                Ok(()) => {},
                Err(e) => {
                    proof {
                        lemma_first_chain_tx_error_rest(txs_exec, self.utxo_set@, self.live_tickets@, self.params.ticket_maturity,
                            self.params.ticket_expiry, h, current_timestamp, i as int + 1, block.transactions@.len() as int);
                    }
                    return Err(e);
                },
            }
            i = i + 1;
        }
        self.utxo_set.apply_block(block, h);
        self.apply_registrations(block);
        let used = self.utxo_set.get_used_inputs_as_ticket_ids();
        proof {
            let u = self.utxo_set@;
            assert(used@.to_set() == used_ticket_ids(u));
        }
        let ghost tk0 = self.live_tickets@;
        let tickets_result = self.live_tickets.update_for_new_block(block, &used);
        proof {
            assert(crate::consensus::pos::without_ids(tk0, used@) =~= tk0.remove_keys(used_ticket_ids(self.utxo_set@)));
        }
        match tickets_result {
            Ok(()) => {},
            Err(e) => {
                return Err(e);
            },
        }
        match self.evaluate_and_apply_governance(h, pos_quorum_bp, mn_quorum_bp, pos_approval_bp, mn_approval_bp) {
            Ok(()) => {},
            Err(e) => {
                return Err(e);
            },
        }
        let _ = self.state.put_block(block);
        let block_hash = block.hash();
        let _ = self.state.update_tip(block_hash, h);
        Ok(())
    }
}

} // verus!
