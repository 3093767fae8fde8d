//! The governance proposals under vote, the votes cast on each, and the evaluation of a
//! proposal against quorum and supermajority thresholds.
use vstd::prelude::*;
use crate::assoc::AssocList;
use crate::consensus::error::{message, ConsensusError};
use crate::types::{ProposalTx, VoteChoice, VoteTx};

verus! {

/// What a proposal comes to.
#[derive(Debug, Clone, PartialEq, Eq, Hash)]
pub enum ProposalOutcome {
    Passed,
    Rejected { reason: String },
    InProgress,
    Expired,
}

/// The proposals under vote, each with the votes cast on it keyed by voter.
pub struct ActiveProposals {
    pub proposals: AssocList<[u8; 32], (ProposalTx, AssocList<[u8; 32], VoteTx>)>,
}

/// A proposal with its votes, as the view holds it.
pub type ProposalEntry = (ProposalTx, Map<[u8; 32], VoteTx>);

/// The votes of a list in the order they were first cast.
pub open spec fn vote_list(votes: AssocList<[u8; 32], VoteTx>) -> Seq<VoteTx> {
    votes.seq().map_values(|e: ([u8; 32], VoteTx)| e.1)
}

impl View for ActiveProposals {
    type V = Map<[u8; 32], ProposalEntry>;

    open spec fn view(&self) -> Map<[u8; 32], ProposalEntry> {
        self.proposals.map().map_values(
            |e: (ProposalTx, AssocList<[u8; 32], VoteTx>)| (e.0, e.1.map()),
        )
    }
}

/// The proposals after adding one under an unused id.
pub open spec fn with_proposal(m: Map<[u8; 32], ProposalEntry>, p: ProposalTx) -> Map<[u8; 32], ProposalEntry> {
    m.insert(p.proposal_id, (p, Map::empty()))
}

/// The proposals after recording a vote on a known proposal; a voter's later vote replaces
/// its earlier one.
pub open spec fn with_vote(m: Map<[u8; 32], ProposalEntry>, v: VoteTx) -> Map<[u8; 32], ProposalEntry> {
    let e = m[v.proposal_id];
    m.insert(v.proposal_id, (e.0, e.1.insert(v.voter_id, v)))
}

/// The proposals after removing a voter's vote from a known proposal.
pub open spec fn without_vote(m: Map<[u8; 32], ProposalEntry>, id: [u8; 32], voter: [u8; 32]) -> Map<[u8; 32], ProposalEntry> {
    let e = m[id];
    m.insert(id, (e.0, e.1.remove(voter)))
}

/// The number of the first `n` votes cast on one side (`pos_side`: ticket holders, or
/// else masternodes) for `choice`, where `is_pos[i]` says whether the `i`-th voter holds a
/// ticket.
pub open spec fn tally(votes: Seq<VoteTx>, is_pos: Seq<bool>, n: int, pos_side: bool, choice: VoteChoice) -> nat
    decreases n,
{
    if n <= 0 {
        0
    } else {
        tally(votes, is_pos, n - 1, pos_side, choice) + (if is_pos[n - 1] == pos_side && votes[n - 1].vote_choice == choice {
            1nat
        } else {
            0nat
        })
    }
}

/// Whether `num / den` reaches `bp` basis points (ten-thousandths). A zero denominator
/// reaches any threshold when the numerator is positive and none when it is zero.
pub open spec fn ratio_reaches(num: int, den: int, bp: int) -> bool {
    if den == 0 {
        num > 0
    } else {
        num * 10000 >= bp * den
    }
}

/// Whether `o` is what a proposal with the given votes comes to at `height`, when
/// `is_pos` says which voters hold tickets, against `live_tickets` live tickets and
/// `masternodes` active masternodes, with thresholds in basis points: in progress outside its voting window; rejected
/// unless the cast yes and no votes of each side reach its quorum; passed when the yes
/// votes of each side reach its approval share of that side's cast votes.
pub open spec fn outcome_is(
    o: ProposalOutcome,
    p: ProposalTx,
    votes: Seq<VoteTx>,
    is_pos: Seq<bool>,
    height: u64,
    live_tickets: u64,
    masternodes: u64,
    pos_quorum_bp: u64,
    mn_quorum_bp: u64,
    pos_approval_bp: u64,
    mn_approval_bp: u64,
) -> bool {
    let n = votes.len() as int;
    let pos_yes = tally(votes, is_pos, n, true, VoteChoice::Yes) as int;
    let pos_cast = pos_yes + tally(votes, is_pos, n, true, VoteChoice::No);
    let mn_yes = tally(votes, is_pos, n, false, VoteChoice::Yes) as int;
    let mn_cast = mn_yes + tally(votes, is_pos, n, false, VoteChoice::No);
    if height < p.start_block_height || height > p.end_block_height {
        o is InProgress
    } else if !ratio_reaches(pos_cast, live_tickets as int, pos_quorum_bp as int)
        || !ratio_reaches(mn_cast, masternodes as int, mn_quorum_bp as int) {
        o matches ProposalOutcome::Rejected { reason } && reason@ == "Quorum not met"@
    } else if ratio_reaches(pos_yes, pos_cast, pos_approval_bp as int)
        && ratio_reaches(mn_yes, mn_cast, mn_approval_bp as int) {
        o is Passed
    } else {
        o matches ProposalOutcome::Rejected { reason } && reason@ == "Supermajority not met"@
    }
}

pub proof fn lemma_tally_bound(votes: Seq<VoteTx>, is_pos: Seq<bool>, n: int, pos_side: bool, choice: VoteChoice)
    requires
        n >= 0,
    ensures
        tally(votes, is_pos, n, pos_side, choice) <= n,
    decreases n,
{
    if n > 0 {
        lemma_tally_bound(votes, is_pos, n - 1, pos_side, choice);
    }
}

/// The yes and no votes of one side together never exceed the votes considered.
pub proof fn lemma_cast_bound(votes: Seq<VoteTx>, is_pos: Seq<bool>, n: int, pos_side: bool)
    requires
        n >= 0,
    ensures
        tally(votes, is_pos, n, pos_side, VoteChoice::Yes) + tally(votes, is_pos, n, pos_side, VoteChoice::No) <= n,
    decreases n,
{
    if n > 0 {
        lemma_cast_bound(votes, is_pos, n - 1, pos_side);
    }
}

/// Whether an evaluation succeeded with the outcome `outcome_is` states.
pub open spec fn evaluation_is(
    r: Result<ProposalOutcome, ConsensusError>,
    p: ProposalTx,
    votes: Seq<VoteTx>,
    is_pos: Seq<bool>,
    height: u64,
    live_tickets: u64,
    masternodes: u64,
    pos_quorum_bp: u64,
    mn_quorum_bp: u64,
    pos_approval_bp: u64,
    mn_approval_bp: u64,
) -> bool {
    r matches Ok(o) && outcome_is(
        o,
        p,
        votes,
        is_pos,
        height,
        live_tickets,
        masternodes,
        pos_quorum_bp,
        mn_quorum_bp,
        pos_approval_bp,
        mn_approval_bp,
    )
}

/// Removing a proposal just added gives back the proposals there were.
pub proof fn law_remove_undoes_add(m: Map<[u8; 32], ProposalEntry>, p: ProposalTx)
    requires
        !m.dom().contains(p.proposal_id),
    ensures
        with_proposal(m, p).remove(p.proposal_id) == m,
{
    assert(with_proposal(m, p).remove(p.proposal_id) =~= m);
}

/// Removing the vote of a voter that had not voted, just recorded, gives back the votes
/// there were.
pub proof fn law_remove_vote_undoes_record(m: Map<[u8; 32], ProposalEntry>, v: VoteTx)
    requires
        m.dom().contains(v.proposal_id),
        !m[v.proposal_id].1.dom().contains(v.voter_id),
    ensures
        without_vote(with_vote(m, v), v.proposal_id, v.voter_id) == m,
{
    let e = m[v.proposal_id];
    assert(e.1.insert(v.voter_id, v).remove(v.voter_id) =~= e.1);
    assert(without_vote(with_vote(m, v), v.proposal_id, v.voter_id) =~= m);
}

/// A fair coin: `rand::random::<bool>()`. Nothing is stated of the outcome.
#[verifier::external_body]
fn random_bool() -> (r: bool) {
    rand::random::<bool>()
}

/// Whether `num / den` reaches `bp` basis points, as `ratio_reaches` states.
fn ratio_reaches_exec(num: u64, den: u64, bp: u64) -> (r: bool)
    ensures
        r == ratio_reaches(num as int, den as int, bp as int),
{
    if den == 0 {
        num > 0
    } else {
        assert((num as int) * 10000 <= u64::MAX as int * 10000) by (nonlinear_arith);
        assert((bp as int) * (den as int) <= (u64::MAX as int) * (u64::MAX as int)) by (nonlinear_arith);
        (num as u128) * 10000 >= (bp as u128) * (den as u128)
    }
}

impl ActiveProposals {
    pub fn new() -> (r: ActiveProposals)
        ensures
            r@ == Map::<[u8; 32], ProposalEntry>::empty(),
    {
        let r = ActiveProposals { proposals: AssocList::new() };
        assert(r@ =~= Map::<[u8; 32], ProposalEntry>::empty());
        r
    }

    /// Adds a proposal with no votes under an unused id.
    pub fn add_proposal(&mut self, proposal: ProposalTx) -> (r: Result<(), ConsensusError>)
        ensures
            old(self)@.dom().contains(proposal.proposal_id) ==> r == Err::<(), ConsensusError>(
                ConsensusError::ProposalAlreadyExists(proposal.proposal_id),
            ) && final(self)@ == old(self)@,
            !old(self)@.dom().contains(proposal.proposal_id) ==> r is Ok && final(self)@ == with_proposal(old(self)@, proposal),
    {
        let proposal_id = proposal.proposal_id;
        if self.proposals.contains_key(&proposal_id) {
            return Err(ConsensusError::ProposalAlreadyExists(proposal_id));
        }
        let votes: AssocList<[u8; 32], VoteTx> = AssocList::new();
        let ghost entry = (proposal, votes);
        self.proposals.insert(proposal_id, (proposal, votes));
        assert(self@ =~= with_proposal(old(self)@, proposal));
        Ok(())
    }

    /// Records a vote on a known proposal, replacing the voter's earlier vote if any.
    pub fn record_vote(&mut self, vote: VoteTx) -> (r: Result<(), ConsensusError>)
        ensures
            !old(self)@.dom().contains(vote.proposal_id) ==> r == Err::<(), ConsensusError>(
                ConsensusError::ProposalNotFound(vote.proposal_id),
            ) && final(self)@ == old(self)@,
            old(self)@.dom().contains(vote.proposal_id) ==> r is Ok && final(self)@ == with_vote(old(self)@, vote),
            old(self)@.dom().contains(vote.proposal_id) && !old(self)@[vote.proposal_id].1.dom().contains(vote.voter_id)
                ==> vote_list(final(self).proposals.map()[vote.proposal_id].1)
                == vote_list(old(self).proposals.map()[vote.proposal_id].1).push(vote),
    {
        let proposal_id = vote.proposal_id;
        let voter_id = vote.voter_id;
        match self.proposals.remove(&proposal_id) {
            None => Err(ConsensusError::ProposalNotFound(proposal_id)),
            Some(entry) => {
                let (proposal, mut votes) = entry;
                votes.insert(voter_id, vote);
                self.proposals.insert(proposal_id, (proposal, votes));
                assert(self@ =~= with_vote(old(self)@, vote));
                Ok(())
            },
        }
    }

    /// The proposal with the given id.
    pub fn get_proposal(&self, proposal_id: &[u8; 32]) -> (r: Option<&ProposalTx>)
        ensures
            r matches Some(p) ==> self@.dom().contains(*proposal_id) && *p == self@[*proposal_id].0,
            r is None ==> !self@.dom().contains(*proposal_id),
    {
        match self.proposals.get(proposal_id) {
            Some(entry) => Some(&entry.0),
            None => None,
        }
    }

    /// The votes cast on the proposal with the given id.
    pub fn get_votes_for_proposal(&self, proposal_id: &[u8; 32]) -> (r: Option<&AssocList<[u8; 32], VoteTx>>)
        ensures
            r matches Some(v) ==> self@.dom().contains(*proposal_id) && v.map() == self@[*proposal_id].1
                && *v == self.proposals.map()[*proposal_id].1,
            r is None ==> !self@.dom().contains(*proposal_id),
    {
        match self.proposals.get(proposal_id) {
            Some(entry) => Some(&entry.1),
            None => None,
        }
    }

    /// Evaluates a proposal at `current_height`, where `voter_is_pos[i]` says whether the
    /// `i`-th voter (in the order the votes were first cast) holds a ticket rather than a
    /// masternode; thresholds are in basis points.
    pub fn evaluate_proposal_with_voter_types(
        &self,
        proposal_id: &[u8; 32],
        current_height: u64,
        voter_is_pos: &Vec<bool>,
        live_tickets_count: u64,
        active_masternode_count: u64,
        pos_quorum_bp: u64,
        mn_quorum_bp: u64,
        pos_approval_bp: u64,
        mn_approval_bp: u64,
    ) -> (r: Result<ProposalOutcome, ConsensusError>)
        requires
            self@.dom().contains(*proposal_id) ==> voter_is_pos@.len() == vote_list(self.proposals.map()[*proposal_id].1).len(),
        ensures
            !self@.dom().contains(*proposal_id) ==> (r matches Err(ConsensusError::Internal(m)) && m@ == "Proposal not found for evaluation."@),
            self@.dom().contains(*proposal_id) ==> evaluation_is(
                r,
                self@[*proposal_id].0,
                vote_list(self.proposals.map()[*proposal_id].1),
                voter_is_pos@,
                current_height,
                live_tickets_count,
                active_masternode_count,
                pos_quorum_bp,
                mn_quorum_bp,
                pos_approval_bp,
                mn_approval_bp,
            ),
    {
        let entry = match self.proposals.get(proposal_id) {
            Some(e) => e,
            None => {
                return Err(ConsensusError::Internal(message("Proposal not found for evaluation.")));
            },
        };
        let proposal = &entry.0;
        if current_height < proposal.start_block_height || current_height > proposal.end_block_height {
            return Ok(ProposalOutcome::InProgress);
        }
        let entries = entry.1.entries();
        let ghost votes = vote_list(entry.1);
        let ghost is_pos = voter_is_pos@;
        let mut pos_yes: u64 = 0;
        let mut pos_no: u64 = 0;
        let mut mn_yes: u64 = 0;
        let mut mn_no: u64 = 0;
        let mut i: usize = 0;
        while i < entries.len()
            invariant
                i <= entries@.len(),
                entries@.len() == is_pos.len(),
                is_pos == voter_is_pos@,
                votes.len() == entries@.len(),
                forall|j: int| 0 <= j < votes.len() ==> #[trigger] votes[j] == entries@[j].1,
                pos_yes == tally(votes, is_pos, i as int, true, VoteChoice::Yes),
                pos_no == tally(votes, is_pos, i as int, true, VoteChoice::No),
                mn_yes == tally(votes, is_pos, i as int, false, VoteChoice::Yes),
                mn_no == tally(votes, is_pos, i as int, false, VoteChoice::No),
            decreases entries@.len() - i,
        {
            proof {
                lemma_tally_bound(votes, is_pos, i as int, true, VoteChoice::Yes);
                lemma_tally_bound(votes, is_pos, i as int, true, VoteChoice::No);
                lemma_tally_bound(votes, is_pos, i as int, false, VoteChoice::Yes);
                lemma_tally_bound(votes, is_pos, i as int, false, VoteChoice::No);
            }
            let choice = entries[i].1.vote_choice;
            assert(votes[i as int] == entries@[i as int].1);
            if voter_is_pos[i] {
                match choice {
                    VoteChoice::Yes => pos_yes = pos_yes + 1,
                    VoteChoice::No => pos_no = pos_no + 1,
                    VoteChoice::Abstain => {},
                }
            } else {
                match choice {
                    VoteChoice::Yes => mn_yes = mn_yes + 1,
                    VoteChoice::No => mn_no = mn_no + 1,
                    VoteChoice::Abstain => {},
                }
            }
            i = i + 1;
        }
        proof {
            lemma_cast_bound(votes, is_pos, votes.len() as int, true);
            lemma_cast_bound(votes, is_pos, votes.len() as int, false);
        }
        let pos_total_cast = pos_yes + pos_no;
        let mn_total_cast = mn_yes + mn_no;
        let pos_quorum_met = ratio_reaches_exec(pos_total_cast, live_tickets_count, pos_quorum_bp);
        let mn_quorum_met = ratio_reaches_exec(mn_total_cast, active_masternode_count, mn_quorum_bp);
        if !pos_quorum_met || !mn_quorum_met {
            return Ok(ProposalOutcome::Rejected { reason: message("Quorum not met") });
        }
        let pos_approval_met = ratio_reaches_exec(pos_yes, pos_total_cast, pos_approval_bp);
        let mn_approval_met = ratio_reaches_exec(mn_yes, mn_total_cast, mn_approval_bp);
        if pos_approval_met && mn_approval_met {
            Ok(ProposalOutcome::Passed)
        } else {
            Ok(ProposalOutcome::Rejected { reason: message("Supermajority not met") })
        }
    }

    /// Evaluates a proposal at `current_height`, each voter taken at random to hold a
    /// ticket or a masternode; thresholds are in basis points. Whatever the draws, the
    /// outcome is the evaluation under some such assignment.
    pub fn evaluate_proposal_at_height(
        &self,
        proposal_id: &[u8; 32],
        current_height: u64,
        live_tickets_count: u64,
        active_masternode_count: u64,
        pos_quorum_bp: u64,
        mn_quorum_bp: u64,
        pos_approval_bp: u64,
        mn_approval_bp: u64,
    ) -> (r: Result<ProposalOutcome, ConsensusError>)
        ensures
            !self@.dom().contains(*proposal_id) ==> (r matches Err(ConsensusError::Internal(m)) && m@ == "Proposal not found for evaluation."@),
            self@.dom().contains(*proposal_id) ==> exists|is_pos: Seq<bool>|
                is_pos.len() == vote_list(self.proposals.map()[*proposal_id].1).len()
                && #[trigger] evaluation_is(
                r,
                self@[*proposal_id].0,
                vote_list(self.proposals.map()[*proposal_id].1),
                is_pos,
                current_height,
                live_tickets_count,
                active_masternode_count,
                pos_quorum_bp,
                mn_quorum_bp,
                pos_approval_bp,
                mn_approval_bp,
            ),
    {
        let count = match self.proposals.get(proposal_id) {
            Some(entry) => entry.1.len(),
            None => {
                return Err(ConsensusError::Internal(message("Proposal not found for evaluation.")));
            },
        };
        let mut voter_is_pos: Vec<bool> = Vec::new();
        let mut i: usize = 0;
        while i < count
            invariant
                i <= count,
                voter_is_pos@.len() == i,
            decreases count - i,
        {
            voter_is_pos.push(random_bool());
            i = i + 1;
        }
        assert(vote_list(self.proposals.map()[*proposal_id].1).len() == count);
        self.evaluate_proposal_with_voter_types(
            proposal_id,
            current_height,
            &voter_is_pos,
            live_tickets_count,
            active_masternode_count,
            pos_quorum_bp,
            mn_quorum_bp,
            pos_approval_bp,
            mn_approval_bp,
        )
    }

    /// Removes a proposal with its votes.
    pub fn remove_proposal(&mut self, proposal_id: &[u8; 32]) -> (r: Result<(), ConsensusError>)
        ensures
            !old(self)@.dom().contains(*proposal_id) ==> r == Err::<(), ConsensusError>(
                ConsensusError::ProposalNotFound(*proposal_id),
            ) && final(self)@ == old(self)@,
            old(self)@.dom().contains(*proposal_id) ==> r is Ok && final(self)@ == old(self)@.remove(*proposal_id),
            final(self).proposals.map() == old(self).proposals.map().remove(*proposal_id),
    {
        match self.proposals.remove(proposal_id) {
            None => {
                assert(self@ =~= old(self)@);
                Err(ConsensusError::ProposalNotFound(*proposal_id))
            },
            Some(_) => {
                assert(self@ =~= old(self)@.remove(*proposal_id));
                Ok(())
            },
        }
    }

    /// Removes a voter's vote from a proposal.
    pub fn remove_vote(&mut self, proposal_id: &[u8; 32], voter_id: &[u8; 32]) -> (r: Result<(), ConsensusError>)
        ensures
            !old(self)@.dom().contains(*proposal_id) ==> r == Err::<(), ConsensusError>(
                ConsensusError::ProposalNotFound(*proposal_id),
            ) && final(self)@ == old(self)@,
            old(self)@.dom().contains(*proposal_id) && !old(self)@[*proposal_id].1.dom().contains(*voter_id)
                ==> r == Err::<(), ConsensusError>(ConsensusError::VoteNotFound(*proposal_id, *voter_id))
                && final(self)@ == old(self)@,
            old(self)@.dom().contains(*proposal_id) && old(self)@[*proposal_id].1.dom().contains(*voter_id)
                ==> r is Ok && final(self)@ == without_vote(old(self)@, *proposal_id, *voter_id),
    {
        let key = *proposal_id;
        match self.proposals.remove(&key) {
            None => {
                assert(self@ =~= old(self)@);
                Err(ConsensusError::ProposalNotFound(key))
            },
            Some(entry) => {
                let (proposal, mut votes) = entry;
                let removed = votes.remove(voter_id);
                let found = removed.is_some();
                self.proposals.insert(key, (proposal, votes));
                if found {
                    assert(self@ =~= without_vote(old(self)@, key, *voter_id));
                    Ok(())
                } else {
                    assert(self@ =~= old(self)@);
                    Err(ConsensusError::VoteNotFound(key, *voter_id))
                }
            },
        }
    }
}

} // verus!
