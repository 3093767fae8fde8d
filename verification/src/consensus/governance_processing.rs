//! How the chain takes in governance transactions: the checks a proposal passes before it
//! is put to the vote, the checks a vote passes before it is counted, and the periodic
//! evaluation of proposals whose activation delay has run out.
use vstd::prelude::*;
use crate::bytes::hash_eq;
use crate::consensus::chain::{outputs_sum, Blockchain};
use crate::consensus::error::{message, ConsensusError, ErrorModel};
use crate::assoc::{distinct_keys, AssocList};
use crate::consensus::chain::{parameter_change, ConsensusParams};
use crate::consensus::governance_state::{ratio_reaches, tally, vote_list, with_proposal, with_vote, ActiveProposals, ProposalEntry, ProposalOutcome};
use crate::consensus::pos::LiveTicketsPool;
use crate::governance::MasternodeStatus;
use crate::crypto::{decode_public_key, decode_signature, ed25519_point_decompresses, ed25519_verifies, ed25519_verify, signature_decodes};
use crate::text::{decimal, push_decimal, push_text};
use crate::types::{OutPoint, ProposalTx, ProposalType, TicketModel, TicketStatus, TxOutput, VoteChoice, VoteTx, VoterType};

verus! {

/// The longest title a proposal may have, in characters.
pub const MAX_PROPOSAL_TITLE_CHARS: usize = 128;

/// The bytes a proposal or vote is signed over, or why they could not be produced.
pub open spec fn canonical_view(c: Result<Vec<u8>, String>) -> Result<Seq<u8>, Seq<char>> {
    match c {
        Ok(b) => Ok(b@),
        Err(e) => Err(e@),
    }
}

/// Whether two states of the chain differ at most in their governance proposals.
pub open spec fn same_but_proposals(a: Blockchain, b: Blockchain) -> bool {
    &&& a.tip == b.tip
    &&& a.live_tickets == b.live_tickets
    &&& a.utxo_set == b.utxo_set
    &&& a.masternode_list == b.masternode_list
    &&& a.params == b.params
    &&& a.state == b.state
}

/// Why a proposal is refused at `height`, if it is: its voting window must open after
/// `height`, close after it opens and last `voting_period` blocks; its title is at most
/// 128 characters; it spends at least one input and locks at least `stake_amount` in its
/// outputs; its id is its canonical hash `hash`; its proposer signed `canonical` (the
/// bytes it is signed over, or why they could not be produced); and no proposal in
/// `known` has its id.
pub open spec fn proposal_error(
    p: ProposalTx,
    height: u64,
    voting_period: u64,
    stake_amount: u64,
    hash: [u8; 32],
    canonical: Result<Seq<u8>, Seq<char>>,
    known: Set<[u8; 32]>,
) -> Option<ErrorModel> {
    if p.start_block_height <= height {
        Some(ErrorModel::RuleViolation("Governance proposal voting start height must be in the future."@))
    } else if p.end_block_height <= p.start_block_height {
        Some(ErrorModel::RuleViolation("Governance proposal end height must be greater than start height."@))
    } else if p.end_block_height - p.start_block_height + 1 != voting_period {
        Some(ErrorModel::RuleViolation("Governance proposal voting window ("@
            + decimal((p.end_block_height - p.start_block_height + 1) as nat)
            + ") must equal configured voting period ("@ + decimal(voting_period as nat) + ")."@))
    } else if p.title@.len() > 128 {
        Some(ErrorModel::RuleViolation("Governance proposal title exceeds 128 characters."@))
    } else if p.inputs@.len() == 0 {
        Some(ErrorModel::RuleViolation("Governance proposal must include at least one input to lock stake."@))
    } else if p.outputs@.len() == 0 {
        Some(ErrorModel::RuleViolation("Governance proposal must include at least one output for stake escrow."@))
    } else if outputs_sum(p.outputs@, p.outputs@.len() as int) < stake_amount {
        Some(ErrorModel::RuleViolation("Governance proposal must lock at least "@ + decimal(stake_amount as nat)
            + " satoshis of stake."@))
    } else if p.proposal_id != hash {
        Some(ErrorModel::RuleViolation("Governance proposal ID does not match canonical hash."@))
    } else {
        match canonical {
            Err(e) => Some(ErrorModel::SerializationError(e)),
            Ok(msg) => if !ed25519_point_decompresses(p.proposer_address@) {
                Some(ErrorModel::InvalidSignature("Invalid proposer public key for governance proposal."@))
            } else if !signature_decodes(p.proposer_signature@) {
                Some(ErrorModel::InvalidSignature("Invalid proposer signature encoding for governance proposal."@))
            } else if !ed25519_verifies(p.proposer_address@, msg, p.proposer_signature@) {
                Some(ErrorModel::InvalidSignature("Invalid proposer signature for governance proposal."@))
            } else if known.contains(p.proposal_id) {
                Some(ErrorModel::ProposalAlreadyExists(p.proposal_id))
            } else {
                None
            },
        }
    }
}

/// The value of a list of outputs, as `outputs_sum` states.
fn sum_output_values(outs: &Vec<TxOutput>) -> (r: u64)
    requires
        outputs_sum(outs@, outs@.len() as int) <= u64::MAX,
    ensures
        r == outputs_sum(outs@, outs@.len() as int),
{
    let mut total: u64 = 0;
    let mut i: usize = 0;
    while i < outs.len()
        invariant
            i <= outs@.len(),
            total == outputs_sum(outs@, i as int),
            outputs_sum(outs@, outs@.len() as int) <= u64::MAX,
        decreases outs@.len() - i,
    {
        proof {
            crate::consensus::chain::lemma_outputs_sum_prefix(outs@, i as int + 1, outs@.len() as int);
        }
        total = total + outs[i].value;
        i = i + 1;
    }
    total
}

/// Whether `rec` is what a search of the chain's records for a vote's voter can find:
/// for a ticket holder, `None` when no live-pool ticket carries the voter's key, else
/// whether a ticket that does is live; for a masternode, `None` when no registered
/// masternode has the voter's key as operator key, else whether one that does is active.
pub open spec fn voter_record(
    v: VoteTx,
    tickets: Map<[u8; 32], TicketModel>,
    masternodes: Map<OutPoint, (Seq<u8>, MasternodeStatus)>,
    rec: Option<bool>,
) -> bool {
    match v.voter_type {
        VoterType::PosTicket => match rec {
            None => forall|id: [u8; 32]| #[trigger] tickets.dom().contains(id) ==> tickets[id].pubkey != v.voter_id@,
            Some(ok) => exists|id: [u8; 32]|
                #[trigger] tickets.dom().contains(id) && tickets[id].pubkey == v.voter_id@ && ok == (tickets[id].status
                    == TicketStatus::Live),
        },
        VoterType::Masternode => match rec {
            None => forall|id: OutPoint| #[trigger] masternodes.dom().contains(id) ==> masternodes[id].0 != v.voter_id@,
            Some(ok) => exists|id: OutPoint|
                #[trigger] masternodes.dom().contains(id) && masternodes[id].0 == v.voter_id@ && ok == (masternodes[id].1
                    == MasternodeStatus::Active),
        },
    }
}

/// Some search result always exists for a voter.
proof fn voter_record_witness(
    v: VoteTx,
    tickets: Map<[u8; 32], TicketModel>,
    masternodes: Map<OutPoint, (Seq<u8>, MasternodeStatus)>,
) -> (rec: Option<bool>)
    ensures
        voter_record(v, tickets, masternodes, rec),
{
    match v.voter_type {
        VoterType::PosTicket => {
            if exists|id: [u8; 32]| #[trigger] tickets.dom().contains(id) && tickets[id].pubkey == v.voter_id@ {
                let id = choose|id: [u8; 32]| #[trigger] tickets.dom().contains(id) && tickets[id].pubkey == v.voter_id@;
                Some(tickets[id].status == TicketStatus::Live)
            } else {
                None
            }
        },
        VoterType::Masternode => {
            if exists|id: OutPoint| #[trigger] masternodes.dom().contains(id) && masternodes[id].0 == v.voter_id@ {
                let id = choose|id: OutPoint| #[trigger] masternodes.dom().contains(id) && masternodes[id].0 == v.voter_id@;
                Some(masternodes[id].1 == MasternodeStatus::Active)
            } else {
                None
            }
        },
    }
}

/// Why a vote is refused at `height`, if it is, given the proposals under vote, the bytes
/// the voter signs (or why they could not be produced) and what the search for the voter
/// found (`voter_record`): the proposal must be under vote with `height` in its window;
/// the signature must decode; the voter must be found and live (a ticket) or active (a
/// masternode); its key must decode and the signature verify under it.
pub open spec fn vote_error(
    v: VoteTx,
    height: u64,
    proposals: Map<[u8; 32], ProposalEntry>,
    canonical: Result<Seq<u8>, Seq<char>>,
    rec: Option<bool>,
) -> Option<ErrorModel> {
    if !proposals.dom().contains(v.proposal_id) {
        Some(ErrorModel::InvalidTicketVote("Vote for non-existent proposal."@))
    } else if height < proposals[v.proposal_id].0.start_block_height || height > proposals[v.proposal_id].0.end_block_height {
        Some(ErrorModel::InvalidTicketVote("Vote outside of proposal voting period."@))
    } else {
        match canonical {
            Err(e) => Some(ErrorModel::SerializationError(e)),
            Ok(msg) => if !signature_decodes(v.voter_signature@) {
                Some(ErrorModel::InvalidSignature("Invalid voter signature encoding."@))
            } else {
                match v.voter_type {
                    VoterType::PosTicket => match rec {
                        None => Some(ErrorModel::InvalidTicketVote("Voting ticket not found in live pool."@)),
                        Some(false) => Some(ErrorModel::InvalidTicketVote("Voting ticket is not active."@)),
                        Some(true) => if !ed25519_point_decompresses(v.voter_id@) {
                            Some(ErrorModel::InvalidSignature("Invalid public key for ticket vote."@))
                        } else if !ed25519_verifies(v.voter_id@, msg, v.voter_signature@) {
                            Some(ErrorModel::InvalidSignature("Invalid signature for ticket vote."@))
                        } else {
                            None
                        },
                    },
                    VoterType::Masternode => match rec {
                        None => Some(ErrorModel::MasternodeError("Voting masternode not found or not active."@)),
                        Some(false) => Some(ErrorModel::MasternodeError("Masternode voter is not active."@)),
                        Some(true) => if !ed25519_point_decompresses(v.voter_id@) {
                            Some(ErrorModel::InvalidSignature("Invalid public key for masternode vote."@))
                        } else if !ed25519_verifies(v.voter_id@, msg, v.voter_signature@) {
                            Some(ErrorModel::InvalidSignature("Invalid signature for masternode vote."@))
                        } else {
                            None
                        },
                    },
                }
            },
        }
    }
}

/// The status and public key of a live-pool ticket whose key is `key`, if there is one;
/// which one, when several share the key, is not stated.
fn find_ticket_by_pubkey(pool: &LiveTicketsPool, key: &[u8; 32]) -> (r: Option<(TicketStatus, Vec<u8>)>)
    ensures
        r matches Some(f) ==> exists|id: [u8; 32]|
            #[trigger] pool@.dom().contains(id) && pool@[id].pubkey == key@ && f.0 == pool@[id].status && f.1@ == key@,
        r is None ==> forall|id: [u8; 32]| #[trigger] pool@.dom().contains(id) ==> pool@[id].pubkey != key@,
{
    let all = pool.get_all_tickets();
    let mut i: usize = 0;
    while i < all.len()
        invariant
            i <= all@.len(),
            forall|j: int| 0 <= j < all@.len() ==> pool@.dom().contains(#[trigger] all@[j].id) && all@[j]@ == pool@[all@[j].id],
            forall|id: [u8; 32]| #[trigger] pool@.dom().contains(id) ==> exists|j: int| 0 <= j < all@.len() && all@[j].id == id,
            forall|j: int| 0 <= j < i ==> (#[trigger] all@[j]).pubkey@ != key@,
        decreases all@.len() - i,
    {
        let t = all[i];
        if crate::bytes::bytes_eq(t.pubkey.as_slice(), key.as_slice()) {
            assert(pool@.dom().contains(all@[i as int].id));
            return Some((t.status, crate::bytes::copy_bytes(t.pubkey.as_slice())));
        }
        i = i + 1;
    }
    proof {
        assert forall|id: [u8; 32]| #[trigger] pool@.dom().contains(id) implies pool@[id].pubkey != key@ by {
            let j = choose|j: int| 0 <= j < all@.len() && all@[j].id == id;
            assert(all@[j]@ == pool@[all@[j].id]);
        }
    }
    None
}

impl Blockchain {
    /// Takes in a governance proposal at `current_block_height` and puts it to the vote,
    /// as `proposal_error` states. `proposal_hash` is the proposal's canonical hash and
    /// `canonical_bytes` the bytes its proposer signs (or why they could not be produced).
    pub fn process_governance_proposal(
        &mut self,
        proposal: ProposalTx,
        current_block_height: u64,
        proposal_hash: &[u8; 32],
        canonical_bytes: &Result<Vec<u8>, String>,
    ) -> (r: Result<(), ConsensusError>)
        requires
            outputs_sum(proposal.outputs@, proposal.outputs@.len() as int) <= u64::MAX,
        ensures
            same_but_proposals(*final(self), *old(self)),
            ({
                let err = proposal_error(proposal, current_block_height, old(self).params.voting_period_blocks,
                    old(self).params.proposal_stake_amount, *proposal_hash, canonical_view(*canonical_bytes),
                    old(self).active_proposals@.dom());
                &&& err is None ==> r is Ok && final(self).active_proposals@ == with_proposal(old(self).active_proposals@, proposal)
                &&& err matches Some(m) ==> (r matches Err(e) && e@ == m) && final(self).active_proposals@ == old(self).active_proposals@
            }),
    {
        if proposal.start_block_height <= current_block_height {
            return Err(ConsensusError::RuleViolation(message("Governance proposal voting start height must be in the future.")));
        }
        if proposal.end_block_height <= proposal.start_block_height {
            return Err(ConsensusError::RuleViolation(message("Governance proposal end height must be greater than start height.")));
        }
        let voting_window = proposal.end_block_height - proposal.start_block_height + 1;
        if voting_window != self.params.voting_period_blocks {
            let mut m = message("Governance proposal voting window (");
            push_decimal(&mut m, voting_window);
            push_text(&mut m, ") must equal configured voting period (");
            push_decimal(&mut m, self.params.voting_period_blocks);
            push_text(&mut m, ").");
            return Err(ConsensusError::RuleViolation(m));
        }
        if proposal.title.as_str().unicode_len() > MAX_PROPOSAL_TITLE_CHARS {
            return Err(ConsensusError::RuleViolation(message("Governance proposal title exceeds 128 characters.")));
        }
        if proposal.inputs.len() == 0 {
            return Err(ConsensusError::RuleViolation(message("Governance proposal must include at least one input to lock stake.")));
        }
        if proposal.outputs.len() == 0 {
            return Err(ConsensusError::RuleViolation(message("Governance proposal must include at least one output for stake escrow.")));
        }
        let total_stake_locked = sum_output_values(&proposal.outputs);
        if total_stake_locked < self.params.proposal_stake_amount {
            let mut m = message("Governance proposal must lock at least ");
            push_decimal(&mut m, self.params.proposal_stake_amount);
            push_text(&mut m, " satoshis of stake.");
            return Err(ConsensusError::RuleViolation(m));
        }
        if !hash_eq(&proposal.proposal_id, proposal_hash) {
            return Err(ConsensusError::RuleViolation(message("Governance proposal ID does not match canonical hash.")));
        }
        let msg = match canonical_bytes {
            Ok(b) => b,
            Err(e) => {
                return Err(ConsensusError::SerializationError(e.clone()));
            },
        };
        let public_key = match decode_public_key(proposal.proposer_address.as_slice()) {
            Some(k) => k,
            None => {
                return Err(ConsensusError::InvalidSignature(message("Invalid proposer public key for governance proposal.")));
            },
        };
        let signature = match decode_signature(proposal.proposer_signature.as_slice()) {
            Some(s) => s,
            None => {
                return Err(ConsensusError::InvalidSignature(
                    message("Invalid proposer signature encoding for governance proposal."),
                ));
            },
        };
        if !ed25519_verify(&public_key, msg.as_slice(), &signature) {
            return Err(ConsensusError::InvalidSignature(message("Invalid proposer signature for governance proposal.")));
        }
        self.active_proposals.add_proposal(proposal)
    }

    /// Takes in a governance vote at `current_block_height` and counts it, as `vote_error`
    /// states for what the search for the voter finds. `canonical_bytes` are the bytes the
    /// voter signs (or why they could not be produced).
    pub fn process_governance_vote(
        &mut self,
        vote: VoteTx,
        current_block_height: u64,
        canonical_bytes: &Result<Vec<u8>, String>,
    ) -> (r: Result<(), ConsensusError>)
        ensures
            same_but_proposals(*final(self), *old(self)),
            exists|rec: Option<bool>| #[trigger] voter_record(vote, old(self).live_tickets@, old(self).masternode_list.entries(), rec) && {
                let err = vote_error(vote, current_block_height, old(self).active_proposals@, canonical_view(*canonical_bytes), rec);
                &&& err is None ==> r is Ok && final(self).active_proposals@ == with_vote(old(self).active_proposals@, vote)
                &&& err matches Some(m) ==> (r matches Err(e) && e@ == m) && final(self).active_proposals@ == old(self).active_proposals@
            },
    {
        let (start, end) = match self.active_proposals.get_proposal(&vote.proposal_id) {
            Some(p) => (p.start_block_height, p.end_block_height),
            None => {
                proof {
                    let rec = voter_record_witness(vote, self.live_tickets@, self.masternode_list.entries());
                    assert(voter_record(vote, self.live_tickets@, self.masternode_list.entries(), rec));
                }
                return Err(ConsensusError::InvalidTicketVote(message("Vote for non-existent proposal.")));
            },
        };
        if current_block_height < start || current_block_height > end {
            proof {
                let rec = voter_record_witness(vote, self.live_tickets@, self.masternode_list.entries());
                assert(voter_record(vote, self.live_tickets@, self.masternode_list.entries(), rec));
            }
            return Err(ConsensusError::InvalidTicketVote(message("Vote outside of proposal voting period.")));
        }
        let msg = match canonical_bytes {
            Ok(b) => b,
            Err(e) => {
                proof {
                    let rec = voter_record_witness(vote, self.live_tickets@, self.masternode_list.entries());
                    assert(voter_record(vote, self.live_tickets@, self.masternode_list.entries(), rec));
                }
                return Err(ConsensusError::SerializationError(e.clone()));
            },
        };
        let signature = match decode_signature(vote.voter_signature.as_slice()) {
            Some(s) => s,
            None => {
                proof {
                    let rec = voter_record_witness(vote, self.live_tickets@, self.masternode_list.entries());
                    assert(voter_record(vote, self.live_tickets@, self.masternode_list.entries(), rec));
                }
                return Err(ConsensusError::InvalidSignature(message("Invalid voter signature encoding.")));
            },
        };
        match vote.voter_type {
            VoterType::PosTicket => {
                let (status, pubkey) = match find_ticket_by_pubkey(&self.live_tickets, &vote.voter_id) {
                    Some(f) => f,
                    None => {
                        assert(voter_record(vote, self.live_tickets@, self.masternode_list.entries(), None));
                        return Err(ConsensusError::InvalidTicketVote(message("Voting ticket not found in live pool.")));
                    },
                };
                let live = match status {
                    TicketStatus::Live => true,
                    _ => false,
                };
                assert(voter_record(vote, self.live_tickets@, self.masternode_list.entries(), Some(live)));
                if !live {
                    return Err(ConsensusError::InvalidTicketVote(message("Voting ticket is not active.")));
                }
                if pubkey.len() != 32 {
                    return Err(ConsensusError::InvalidSignature(message("Invalid ticket public key length.")));
                }
                let public_key = match decode_public_key(pubkey.as_slice()) {
                    Some(k) => k,
                    None => {
                        return Err(ConsensusError::InvalidSignature(message("Invalid public key for ticket vote.")));
                    },
                };
                if !ed25519_verify(&public_key, msg.as_slice(), &signature) {
                    return Err(ConsensusError::InvalidSignature(message("Invalid signature for ticket vote.")));
                }
            },
            VoterType::Masternode => {
                let status = match self.masternode_list.find_by_operator_key(vote.voter_id.as_slice()) {
                    Some(f) => f.1,
                    None => {
                        assert(voter_record(vote, self.live_tickets@, self.masternode_list.entries(), None));
                        return Err(ConsensusError::MasternodeError(message("Voting masternode not found or not active.")));
                    },
                };
                let active = match status {
                    MasternodeStatus::Active => true,
                    _ => false,
                };
                assert(voter_record(vote, self.live_tickets@, self.masternode_list.entries(), Some(active)));
                if !active {
                    return Err(ConsensusError::MasternodeError(message("Masternode voter is not active.")));
                }
                let public_key = match decode_public_key(vote.voter_id.as_slice()) {
                    Some(k) => k,
                    None => {
                        return Err(ConsensusError::InvalidSignature(message("Invalid public key for masternode vote.")));
                    },
                };
                if !ed25519_verify(&public_key, msg.as_slice(), &signature) {
                    return Err(ConsensusError::InvalidSignature(message("Invalid signature for masternode vote.")));
                }
            },
        }
        self.active_proposals.record_vote(vote)
    }
}

/// Whether every proposal under vote ends early enough that adding the activation delay
/// to its last voting height stays within a `u64`.
pub open spec fn delays_fit(proposals: Map<[u8; 32], ProposalEntry>, delay: u64) -> bool {
    forall|id: [u8; 32]| #[trigger] proposals.dom().contains(id) ==> proposals[id].0.end_block_height + delay <= u64::MAX
}

/// The proposals taken up at `height`, among the first `n` entries in the order they were
/// put to the vote: those whose last voting height plus the activation delay is below it.
pub open spec fn due_ids(
    entries: Seq<([u8; 32], (ProposalTx, AssocList<[u8; 32], VoteTx>))>,
    n: int,
    height: u64,
    delay: u64,
) -> Seq<[u8; 32]>
    decreases n,
{
    if n <= 0 {
        Seq::empty()
    } else {
        let before = due_ids(entries, n - 1, height, delay);
        if height > entries[n - 1].1.0.end_block_height + delay {
            before.push(entries[n - 1].0)
        } else {
            before
        }
    }
}

/// Which side each vote was cast on: whether the voter holds a ticket.
pub open spec fn voter_sides(votes: Seq<VoteTx>) -> Seq<bool> {
    votes.map_values(|v: VoteTx| v.voter_type is PosTicket)
}

/// Whether votes pass a proposal, against `live` live tickets and `masternodes` active
/// masternodes, with thresholds in basis points: the yes and no votes of each side reach
/// its quorum, and its yes votes reach its approval share of them.
pub open spec fn votes_pass(
    votes: Seq<VoteTx>,
    live: u64,
    masternodes: u64,
    pos_quorum_bp: u64,
    mn_quorum_bp: u64,
    pos_approval_bp: u64,
    mn_approval_bp: u64,
) -> bool {
    let is_pos = voter_sides(votes);
    let n = votes.len() as int;
    let pos_yes = tally(votes, is_pos, n, true, VoteChoice::Yes) as int;
    let pos_cast = pos_yes + tally(votes, is_pos, n, true, VoteChoice::No);
    let mn_yes = tally(votes, is_pos, n, false, VoteChoice::Yes) as int;
    let mn_cast = mn_yes + tally(votes, is_pos, n, false, VoteChoice::No);
    &&& ratio_reaches(pos_cast, live as int, pos_quorum_bp as int)
    &&& ratio_reaches(mn_cast, masternodes as int, mn_quorum_bp as int)
    &&& ratio_reaches(pos_yes, pos_cast, pos_approval_bp as int)
    &&& ratio_reaches(mn_yes, mn_cast, mn_approval_bp as int)
}

/// The parameters, the proposals and the error, if any, after taking up the first `k` due
/// proposals in order, from the parameters `params` and the proposals `ap`: each is
/// evaluated on its votes at the close of its voting window; one whose window never opened
/// stays; one that passes and changes a parameter named with a value has that change made
/// (`parameter_change`), and a change that fails stops the evaluation; every other
/// proposal, passed or rejected, is removed.
pub open spec fn governance_after(
    params: ConsensusParams,
    ap: ActiveProposals,
    due: Seq<[u8; 32]>,
    k: int,
    live: u64,
    masternodes: u64,
    pos_quorum_bp: u64,
    mn_quorum_bp: u64,
    pos_approval_bp: u64,
    mn_approval_bp: u64,
) -> (ConsensusParams, Map<[u8; 32], ProposalEntry>, Option<ErrorModel>)
    decreases k,
{
    if k <= 0 {
        (params, ap@, None)
    } else {
        let before = governance_after(params, ap, due, k - 1, live, masternodes, pos_quorum_bp, mn_quorum_bp,
            pos_approval_bp, mn_approval_bp);
        let id = due[k - 1];
        let p = ap@[id].0;
        if before.2 is Some || p.start_block_height > p.end_block_height {
            before
        } else if votes_pass(vote_list(ap.proposals.map()[id].1), live, masternodes, pos_quorum_bp, mn_quorum_bp,
            pos_approval_bp, mn_approval_bp) {
            match (p.proposal_type, p.target_parameter, p.new_value) {
                (ProposalType::ParameterChange, Some(name), Some(value)) => {
                    let (q, err) = parameter_change(before.0, name@, value@);
                    if err is Some {
                        (q, before.1, err)
                    } else {
                        (q, before.1.remove(id), None)
                    }
                },
                _ => (before.0, before.1.remove(id), None),
            }
        } else {
            (before.0, before.1.remove(id), None)
        }
    }
}

proof fn lemma_due_ids(
    entries: Seq<([u8; 32], (ProposalTx, AssocList<[u8; 32], VoteTx>))>,
    n: int,
    height: u64,
    delay: u64,
)
    requires
        0 <= n <= entries.len(),
        distinct_keys(entries),
    ensures
        forall|j: int| 0 <= j < due_ids(entries, n, height, delay).len() ==> exists|i: int|
            0 <= i < n && #[trigger] due_ids(entries, n, height, delay)[j] == entries[i].0,
        forall|a: int, b: int| 0 <= a < b < due_ids(entries, n, height, delay).len()
            ==> due_ids(entries, n, height, delay)[a] != due_ids(entries, n, height, delay)[b],
    decreases n,
{
    if n > 0 {
        lemma_due_ids(entries, n - 1, height, delay);
        let before = due_ids(entries, n - 1, height, delay);
        let d = due_ids(entries, n, height, delay);
        assert forall|j: int| 0 <= j < d.len() implies exists|i: int| 0 <= i < n && #[trigger] d[j] == entries[i].0 by {
            if j < before.len() {
                assert(d[j] == before[j]);
                let i = choose|i: int| 0 <= i < n - 1 && #[trigger] before[j] == entries[i].0;
            } else {
                assert(d[j] == entries[n - 1].0);
            }
        }
        assert forall|a: int, b: int| 0 <= a < b < d.len() implies d[a] != d[b] by {
            if b >= before.len() {
                assert(d[a] == before[a]);
                let i = choose|i: int| 0 <= i < n - 1 && #[trigger] before[a] == entries[i].0;
                assert(entries[i].0 != entries[n - 1].0);
            } else {
                assert(d[a] == before[a] && d[b] == before[b]);
            }
        }
    }
}

/// The governance evaluation at `height` of the proposals `ap` under the parameters
/// `params`: `governance_after` over all the proposals that are due.
pub open spec fn governance_of(
    params: ConsensusParams,
    ap: ActiveProposals,
    live: u64,
    masternodes: u64,
    height: u64,
    pos_quorum_bp: u64,
    mn_quorum_bp: u64,
    pos_approval_bp: u64,
    mn_approval_bp: u64,
) -> (ConsensusParams, Map<[u8; 32], ProposalEntry>, Option<ErrorModel>) {
    let entries = ap.proposals.seq();
    let due = due_ids(entries, entries.len() as int, height, params.activation_delay_blocks);
    governance_after(params, ap, due, due.len() as int, live, masternodes, pos_quorum_bp, mn_quorum_bp, pos_approval_bp,
        mn_approval_bp)
}

proof fn lemma_governance_after_rest(
    params: ConsensusParams,
    ap: ActiveProposals,
    due: Seq<[u8; 32]>,
    k: int,
    n: int,
    live: u64,
    masternodes: u64,
    pos_quorum_bp: u64,
    mn_quorum_bp: u64,
    pos_approval_bp: u64,
    mn_approval_bp: u64,
)
    requires
        0 <= k <= n,
        governance_after(params, ap, due, k, live, masternodes, pos_quorum_bp, mn_quorum_bp, pos_approval_bp,
            mn_approval_bp).2 is Some,
    ensures
        governance_after(params, ap, due, n, live, masternodes, pos_quorum_bp, mn_quorum_bp, pos_approval_bp, mn_approval_bp)
            == governance_after(params, ap, due, k, live, masternodes, pos_quorum_bp, mn_quorum_bp, pos_approval_bp,
            mn_approval_bp),
    decreases n - k,
{
    if k < n {
        lemma_governance_after_rest(params, ap, due, k, n - 1, live, masternodes, pos_quorum_bp, mn_quorum_bp,
            pos_approval_bp, mn_approval_bp);
    }
}

impl Blockchain {
    /// Takes up each proposal whose activation delay has run out by
    /// `current_block_height` (its last voting height plus the delay is below it), in the
    /// order the proposals were put to the vote, and evaluates it on its votes at the close
    /// of its voting window, each voter counted on the side its vote names, against the live
    /// tickets and the active masternodes, with thresholds in basis points: a passed
    /// parameter change is made, and a passed or rejected proposal is removed, as
    /// `governance_of` states. A parameter change that fails is the error, and what was
    /// done before it stays.
    pub fn evaluate_and_apply_governance(
        &mut self,
        current_block_height: u64,
        pos_quorum_bp: u64,
        mn_quorum_bp: u64,
        pos_approval_bp: u64,
        mn_approval_bp: u64,
    ) -> (r: Result<(), ConsensusError>)
        requires
            delays_fit(old(self).active_proposals@, old(self).params.activation_delay_blocks),
        ensures
            ({
                let g = governance_of(old(self).params, old(self).active_proposals, old(self).live_tickets@.dom().len() as u64,
                    old(self).masternode_list.active() as u64, current_block_height, pos_quorum_bp, mn_quorum_bp,
                    pos_approval_bp, mn_approval_bp);
                &&& final(self).params == g.0
                &&& final(self).active_proposals@ == g.1
                &&& g.2 matches Some(m) ==> (r matches Err(e) && e@ == m)
                &&& g.2 is None ==> r is Ok
                &&& final(self).tip == old(self).tip
                &&& final(self).live_tickets == old(self).live_tickets
                &&& final(self).utxo_set == old(self).utxo_set
                &&& final(self).masternode_list == old(self).masternode_list
                &&& final(self).state == old(self).state
            }),
    {
        let delay = self.params.activation_delay_blocks;
        let ghost entries0 = self.active_proposals.proposals.seq();
        let mut due: Vec<[u8; 32]> = Vec::new();
        {
            let entries = self.active_proposals.proposals.entries();
            self.active_proposals.proposals.lemma_wf();
            let mut i: usize = 0;
            while i < entries.len()
                invariant
                    i <= entries@.len(),
                    entries@ == self.active_proposals.proposals.seq(),
                    entries0 == entries@,
                    delay == self.params.activation_delay_blocks,
                    delays_fit(self.active_proposals@, delay),
                    forall|j: int|
                        0 <= j < entries@.len() ==> #[trigger] self.active_proposals.proposals.map().dom().contains(entries@[j].0)
                            && self.active_proposals.proposals.map()[entries@[j].0] == entries@[j].1,
                    due@ == due_ids(entries0, i as int, current_block_height, delay),
                decreases entries@.len() - i,
            {
                let id = entries[i].0;
                assert(self.active_proposals@.dom().contains(id));
                assert(self.active_proposals@[id].0 == entries@[i as int].1.0);
                if current_block_height > entries[i].1.0.end_block_height + delay {
                    due.push(id);
                }
                i = i + 1;
            }
        }
        let ghost c0 = *self;
        let ghost live = self.live_tickets@.dom().len() as u64;
        let ghost mn = self.masternode_list.active() as u64;
        self.active_proposals.proposals.lemma_wf();
        proof {
            lemma_due_ids(entries0, entries0.len() as int, current_block_height, delay);
        }
        let live_count = self.live_tickets.count_live_tickets() as u64;
        let masternode_count = self.masternode_list.count_active_masternodes();
        let mut k: usize = 0;
        while k < due.len()
            invariant
                k <= due@.len(),
                c0 == *old(self),
                delay == c0.params.activation_delay_blocks,
                entries0 == c0.active_proposals.proposals.seq(),
                due@ == due_ids(entries0, entries0.len() as int, current_block_height, delay),
                live_count == live,
                masternode_count == mn,
                live == c0.live_tickets@.dom().len() as u64,
                mn == c0.masternode_list.active() as u64,
                forall|a: int, b: int| 0 <= a < b < due@.len() ==> due@[a] != due@[b],
                forall|j: int| 0 <= j < due@.len() ==> #[trigger] c0.active_proposals.proposals.map().dom().contains(due@[j]),
                forall|j: int| #![trigger due@[j]] k <= j < due@.len() ==> self.active_proposals.proposals.map().dom().contains(due@[j])
                    && self.active_proposals.proposals.map()[due@[j]] == c0.active_proposals.proposals.map()[due@[j]],
                ({
                    let g = governance_after(c0.params, c0.active_proposals, due@, k as int, live, mn, pos_quorum_bp,
                        mn_quorum_bp, pos_approval_bp, mn_approval_bp);
                    &&& g.2 is None
                    &&& self.params == g.0
                    &&& self.active_proposals@ == g.1
                }),
                self.tip == c0.tip,
                self.live_tickets == c0.live_tickets,
                self.utxo_set == c0.utxo_set,
                self.masternode_list == c0.masternode_list,
                self.state == c0.state,
            decreases due@.len() - k,
        {
            let id = due[k];
            proof {
                let j = choose|j: int| 0 <= j < entries0.len() && #[trigger] due@[k as int] == entries0[j].0;
            }
            assert(self.active_proposals.proposals.map().dom().contains(due@[k as int]));
            let (start, end, proposal_type, change) = match self.active_proposals.get_proposal(&id) {
                Some(p) => (
                    p.start_block_height,
                    p.end_block_height,
                    p.proposal_type,
                    match (&p.target_parameter, &p.new_value) {
                        (Some(name), Some(value)) => Some((name.clone(), value.clone())),
                        _ => None,
                    },
                ),
                None => {
                    return Err(ConsensusError::Internal(message("Proposal not found during removal.")));
                },
            };
            let ghost p0 = c0.active_proposals@[id].0;
            assert(start == p0.start_block_height && end == p0.end_block_height && proposal_type == p0.proposal_type);
            let ghost votes0 = vote_list(c0.active_proposals.proposals.map()[id].1);
            let mut voter_is_pos: Vec<bool> = Vec::new();
            match self.active_proposals.get_votes_for_proposal(&id) {
                Some(votes) => {
                    let entries = votes.entries();
                    let mut j: usize = 0;
                    while j < entries.len()
                        invariant
                            j <= entries@.len(),
                            entries@ == votes.seq(),
                            voter_is_pos@.len() == j,
                            forall|m: int| 0 <= m < j ==> #[trigger] voter_is_pos@[m] == (entries@[m].1.voter_type is PosTicket),
                        decreases entries@.len() - j,
                    {
                        let is_pos = match entries[j].1.voter_type {
                            VoterType::PosTicket => true,
                            VoterType::Masternode => false,
                        };
                        voter_is_pos.push(is_pos);
                        j = j + 1;
                    }
                    assert(voter_is_pos@ =~= voter_sides(votes0));
                },
                None => {},
            }
            let outcome = match self.active_proposals.evaluate_proposal_with_voter_types(
                &id,
                end,
                &voter_is_pos,
                live_count,
                masternode_count,
                pos_quorum_bp,
                mn_quorum_bp,
                pos_approval_bp,
                mn_approval_bp,
            ) {
                Ok(o) => o,
                Err(e) => {
                    return Err(e);
                },
            };
            let ghost before = governance_after(c0.params, c0.active_proposals, due@, k as int, live, mn, pos_quorum_bp,
                mn_quorum_bp, pos_approval_bp, mn_approval_bp);
            let ghost passes = votes_pass(votes0, live, mn, pos_quorum_bp, mn_quorum_bp, pos_approval_bp, mn_approval_bp);
            assert(start > end ==> outcome is InProgress);
            assert(start <= end ==> (outcome is Passed <==> passes));
            assert(start <= end ==> (outcome is Passed || outcome is Rejected));
            let ghost m_before = self.active_proposals.proposals.map();
            assert(forall|j: int| #![trigger due@[j]] k <= j < due@.len() ==> m_before.dom().contains(due@[j])
                && m_before[due@[j]] == c0.active_proposals.proposals.map()[due@[j]]);
            match outcome {
                ProposalOutcome::Passed => {
                    match proposal_type {
                        ProposalType::ParameterChange => {
                            if let Some((name, value)) = change {
                                match self.apply_parameter_change(name.as_str(), value.as_str()) {
                                    Ok(_) => {},
                                    Err(e) => {
                                        proof {
                                            lemma_governance_after_rest(c0.params, c0.active_proposals, due@, k as int + 1,
                                                due@.len() as int, live, mn, pos_quorum_bp, mn_quorum_bp, pos_approval_bp,
                                                mn_approval_bp);
                                        }
                                        return Err(e);
                                    },
                                }
                            }
                        },
                        _ => {},
                    }
                    let _ = self.active_proposals.remove_proposal(&id);
                },
                ProposalOutcome::Rejected { .. } => {
                    let _ = self.active_proposals.remove_proposal(&id);
                },
                ProposalOutcome::InProgress => {},
                ProposalOutcome::Expired => {
                    let _ = self.active_proposals.remove_proposal(&id);
                },
            }
            assert(self.active_proposals.proposals.map() == m_before || self.active_proposals.proposals.map() == m_before.remove(id));
            proof {
                assert forall|j: int| #![trigger due@[j]] k + 1 <= j < due@.len() implies self.active_proposals.proposals.map().dom().contains(due@[j])
                    && self.active_proposals.proposals.map()[due@[j]] == c0.active_proposals.proposals.map()[due@[j]] by {
                    assert(due@[j] != due@[k as int]);
                    assert(m_before.dom().contains(due@[j]) && m_before[due@[j]] == c0.active_proposals.proposals.map()[due@[j]]);
                    assert(m_before.remove(id).dom().contains(due@[j]) && m_before.remove(id)[due@[j]] == m_before[due@[j]]);
                }
            }
            k = k + 1;
        }
        Ok(())
    }
}

} // verus!
