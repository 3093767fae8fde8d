//! Undoing a block: its outputs, tickets, masternode registrations, proposals and votes
//! are taken back and the tip moves to the block below.
use vstd::prelude::*;
use crate::consensus::chain::Blockchain;
use crate::consensus::error::{ConsensusError, ErrorModel};
use crate::consensus::governance_state::{without_vote, ProposalEntry};
use crate::consensus::pos::{block_txs, purchase_ids, without_ids};
use crate::consensus::utxo_set::revert_txs;
use crate::encoding::spec_header_hash;
use crate::types::{Block, OutPoint, TicketModel, Transaction, TransactionModel, UtxoModel};

verus! {

/// The txids of the outputs not made by a coinbase, read as ticket ids.
pub open spec fn used_ticket_ids(u: Map<OutPoint, UtxoModel>) -> Set<[u8; 32]> {
    u.dom().filter(|op: OutPoint| !u[op].is_coinbase).map(|op: OutPoint| op.txid)
}

impl TransactionModel {
    /// Whether this registers the masternode with collateral `op`.
    pub open spec fn registers(self, op: OutPoint) -> bool {
        self matches TransactionModel::MasternodeRegister { collateral_outpoint, .. } && collateral_outpoint == op
    }
}

/// The masternodes registered by the transactions from the `i`-th on.
pub open spec fn registered_from(txs: Seq<TransactionModel>, i: int) -> Set<OutPoint> {
    Set::new(|op: OutPoint| exists|j: int| i <= j < txs.len() && #[trigger] txs[j].registers(op))
}

/// Undoing one transaction's governance and ticket effects: a proposal is removed, a
/// vote is removed, a purchased ticket is removed; each fails when there is nothing to
/// remove.
pub open spec fn revert_step(
    ap: Map<[u8; 32], ProposalEntry>,
    tk: Map<[u8; 32], TicketModel>,
    t: TransactionModel,
) -> (Map<[u8; 32], ProposalEntry>, Map<[u8; 32], TicketModel>, Option<ErrorModel>) {
    match t {
        TransactionModel::GovernanceProposal { proposal_id, .. } => if ap.dom().contains(proposal_id) {
            (ap.remove(proposal_id), tk, None)
        } else {
            (ap, tk, Some(ErrorModel::ProposalNotFound(proposal_id)))
        },
        TransactionModel::GovernanceVote { proposal_id, voter_id, .. } => if !ap.dom().contains(proposal_id) {
            (ap, tk, Some(ErrorModel::ProposalNotFound(proposal_id)))
        } else if !ap[proposal_id].1.dom().contains(voter_id) {
            (ap, tk, Some(ErrorModel::VoteNotFound(proposal_id, voter_id)))
        } else {
            (without_vote(ap, proposal_id, voter_id), tk, None)
        },
        TransactionModel::TicketPurchase { ticket_id, .. } => if tk.dom().contains(ticket_id) {
            (ap, tk.remove(ticket_id), None)
        } else {
            (ap, tk, Some(ErrorModel::InvalidTicket("Ticket not found in live pool."@)))
        },
        _ => (ap, tk, None),
    }
}

/// Undoing the governance and ticket effects of the first `k` transactions, last first,
/// stopping at the first that fails.
pub open spec fn revert_from(
    ap: Map<[u8; 32], ProposalEntry>,
    tk: Map<[u8; 32], TicketModel>,
    txs: Seq<TransactionModel>,
    k: int,
) -> (Map<[u8; 32], ProposalEntry>, Map<[u8; 32], TicketModel>, Option<ErrorModel>)
    decreases k,
{
    if k <= 0 {
        (ap, tk, None)
    } else {
        let (a1, t1, e) = revert_step(ap, tk, txs[k - 1]);
        if e is Some {
            (a1, t1, e)
        } else {
            revert_from(a1, t1, txs, k - 1)
        }
    }
}

impl Blockchain {
    /// Removes the masternodes a block's transactions register.
    fn revert_registrations(&mut self, block: &Block)
        ensures
            final(self).masternode_list@ == old(self).masternode_list@.difference(registered_from(block_txs(*block), 0)),
            final(self).utxo_set@ == old(self).utxo_set@,
            final(self).live_tickets@ == old(self).live_tickets@,
            final(self).active_proposals@ == old(self).active_proposals@,
            final(self).params == old(self).params,
            final(self).tip == old(self).tip,
            final(self).state.tip == old(self).state.tip,
            final(self).state.current_height == old(self).state.current_height,
    {
        let ghost txs = block_txs(*block);
        let ghost mn0 = self.masternode_list@;
        let mut i: usize = block.transactions.len();
        assert(mn0.difference(registered_from(txs, i as int)) =~= mn0);
        while i > 0
            invariant
                i <= block.transactions@.len(),
                txs == block_txs(*block),
                self.masternode_list@ == mn0.difference(registered_from(txs, i as int)),
                self.utxo_set@ == old(self).utxo_set@,
                self.live_tickets@ == old(self).live_tickets@,
                self.active_proposals@ == old(self).active_proposals@,
                self.params == old(self).params,
                self.tip == old(self).tip,
                self.state.tip == old(self).state.tip,
                self.state.current_height == old(self).state.current_height,
            decreases i,
        {
            assert(txs[i - 1] == block.transactions@[i - 1]@);
            match &block.transactions[i - 1] {
                Transaction::MasternodeRegister { masternode_identity, .. } => {
                    let op = masternode_identity.collateral_outpoint;
                    self.masternode_list.remove(&op);
                    assert(self.masternode_list@ =~= mn0.difference(registered_from(txs, i - 1))) by {
                        assert(txs[i - 1].registers(op));
                    }
                },
                _ => {
                    assert(mn0.difference(registered_from(txs, i as int)) =~= mn0.difference(registered_from(txs, i - 1))) by {
                        assert forall|op: OutPoint| !#[trigger] txs[i - 1].registers(op) by {}
                    }
                },
            }
            i = i - 1;
        }
    }

    /// Removes, last transaction first, a block's proposals, votes and purchased tickets,
    /// as `revert_from` states.
    fn revert_governance(&mut self, block: &Block) -> (r: Result<(), ConsensusError>)
        ensures
            ({
                let g = revert_from(old(self).active_proposals@, old(self).live_tickets@, block_txs(*block), block.transactions@.len() as int);
                &&& final(self).active_proposals@ == g.0
                &&& final(self).live_tickets@ == g.1
                &&& (r is Ok <==> g.2 is None)
                &&& (r matches Err(e) ==> Some(e@) == g.2)
            }),
            final(self).utxo_set@ == old(self).utxo_set@,
            final(self).masternode_list@ == old(self).masternode_list@,
            final(self).params == old(self).params,
            final(self).tip == old(self).tip,
            final(self).state.tip == old(self).state.tip,
            final(self).state.current_height == old(self).state.current_height,
    {
        let ghost txs = block_txs(*block);
        let ghost n = txs.len() as int;
        let ghost target = revert_from(self.active_proposals@, self.live_tickets@, txs, n);
        let mut k: usize = block.transactions.len();
        while k > 0
            invariant
                k <= block.transactions@.len(),
                txs == block_txs(*block),
                n == txs.len(),
                target == revert_from(old(self).active_proposals@, old(self).live_tickets@, txs, n),
                revert_from(self.active_proposals@, self.live_tickets@, txs, k as int) == target,
                self.utxo_set@ == old(self).utxo_set@,
                self.masternode_list@ == old(self).masternode_list@,
                self.params == old(self).params,
                self.tip == old(self).tip,
                self.state.tip == old(self).state.tip,
                self.state.current_height == old(self).state.current_height,
            decreases k,
        {
            let ghost ap = self.active_proposals@;
            let ghost tk = self.live_tickets@;
            let ghost step = revert_step(ap, tk, txs[k - 1]);
            assert(txs[k - 1] == block.transactions@[k - 1]@);
            match &block.transactions[k - 1] {
                Transaction::GovernanceProposal(p) => {
                    match self.active_proposals.remove_proposal(&p.proposal_id) {
                        Ok(()) => {},
                        Err(e) => {
                            assert(step.2 == Some(e@));
                            return Err(e);
                        },
                    }
                },
                Transaction::GovernanceVote(v) => {
                    match self.active_proposals.remove_vote(&v.proposal_id, &v.voter_id) {
                        Ok(()) => {},
                        Err(e) => {
                            assert(step.2 == Some(e@));
                            return Err(e);
                        },
                    }
                },
                Transaction::TicketPurchase { ticket_id, .. } => {
                    match self.live_tickets.remove_ticket(ticket_id) {
                        Ok(_) => {},
                        Err(e) => {
                            assert(step.2 == Some(e@));
                            return Err(e);
                        },
                    }
                },
                _ => {},
            }
            assert(step.2 is None);
            assert(self.active_proposals@ == step.0 && self.live_tickets@ == step.1);
            k = k - 1;
        }
        Ok(())
    }

    /// Undoes a block: its outputs are removed and the outputs it spent put back; the
    /// tickets it used and bought leave the live pool; the masternodes it registered are
    /// removed; then, last transaction first, its proposals, votes and purchased tickets
    /// are removed, stopping with an error when one is not there; finally the tip moves to
    /// the block below.
    pub fn revert_block(&mut self, block: &Block) -> (r: Result<(), ConsensusError>)
        requires
            block.header.height > 0 || ({
                let txs = block_txs(*block);
                let n = txs.len() as int;
                let u = revert_txs(old(self).utxo_set@, block.transactions@, block.transactions@.len());
                let tk1 = old(self).live_tickets@.remove_keys(used_ticket_ids(u)).remove_keys(purchase_ids(txs, n));
                revert_from(old(self).active_proposals@, tk1, txs, n).2 is Some
            }),
        ensures
            ({
                let txs = block_txs(*block);
                let n = txs.len() as int;
                let u = revert_txs(old(self).utxo_set@, block.transactions@, block.transactions@.len());
                let tk1 = old(self).live_tickets@.remove_keys(used_ticket_ids(u)).remove_keys(purchase_ids(txs, n));
                let g = revert_from(old(self).active_proposals@, tk1, txs, n);
                &&& final(self).utxo_set@ == u
                &&& final(self).masternode_list@ == old(self).masternode_list@.difference(registered_from(txs, 0))
                &&& final(self).active_proposals@ == g.0
                &&& final(self).live_tickets@ == g.1
                &&& final(self).params == old(self).params
                &&& final(self).tip == old(self).tip
                &&& (r is Ok <==> g.2 is None)
                &&& (r matches Err(e) ==> Some(e@) == g.2 && final(self).state.tip == old(self).state.tip
                    && final(self).state.current_height == old(self).state.current_height)
                &&& (r is Ok ==> final(self).state.tip == block.header.previous_block_hash
                    && final(self).state.current_height == block.header.height - 1)
            }),
    {
        match self.utxo_set.revert_block(block) {
            Ok(()) => {},
            Err(e) => {
                return Err(e);
            },
        }
        let ghost u = self.utxo_set@;
        let used = self.utxo_set.get_used_inputs_as_ticket_ids();
        let ghost tk0 = self.live_tickets@;
        self.live_tickets.update_for_revert_block(block, &used);
        assert(without_ids(tk0, used@) =~= tk0.remove_keys(used_ticket_ids(u)));
        self.revert_registrations(block);
        match self.revert_governance(block) {
            Ok(()) => {},
            Err(e) => {
                return Err(e);
            },
        }
        let _ = self.state.update_tip(block.header.previous_block_hash, block.header.height - 1);
        let block_hash = block.hash();
        let _ = self.state.remove_block_by_hash(&block_hash);
        let _ = self.state.remove_block_by_height(block.header.height);
        Ok(())
    }
}

} // verus!
