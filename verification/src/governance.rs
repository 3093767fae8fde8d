//! Masternode governance: proposals, votes cast by registered masternodes, tallies and
//! the quorum rule; and a simple proposal registry with its vote lists.
use vstd::prelude::*;
use crate::assoc::AssocList;
use crate::bytes::bytes_eq;
use crate::consensus::error::message;
use crate::types::OutPoint;

verus! {

/// The standing of a registered masternode.
#[derive(Clone, Copy, Debug, PartialEq, Eq, Structural)]
pub enum MasternodeStatus {
    Active,
    Banned,
}

/// A registered masternode: its operator's public key and its standing.
pub struct MasternodeEntry {
    pub operator_public_key: Vec<u8>,
    pub status: MasternodeStatus,
}

/// The number of active masternodes among a list of registry entries.
pub open spec fn active_count(s: Seq<(OutPoint, MasternodeEntry)>) -> nat
    decreases s.len(),
{
    if s.len() == 0 {
        0
    } else {
        active_count(s.drop_last()) + (if s.last().1.status == MasternodeStatus::Active { 1nat } else { 0nat })
    }
}

proof fn lemma_active_count_bound(s: Seq<(OutPoint, MasternodeEntry)>)
    ensures
        active_count(s) <= s.len(),
    decreases s.len(),
{
    if s.len() > 0 {
        lemma_active_count_bound(s.drop_last());
    }
}

/// The masternodes registered on the chain, each named by its collateral outpoint.
pub struct MasternodeList {
    masternodes: AssocList<OutPoint, MasternodeEntry>,
}

impl View for MasternodeList {
    type V = Set<OutPoint>;

    closed spec fn view(&self) -> Set<OutPoint> {
        self.masternodes.map().dom()
    }
}

impl MasternodeList {
    /// Each registered masternode's operator key and standing.
    pub closed spec fn entries(&self) -> Map<OutPoint, (Seq<u8>, MasternodeStatus)> {
        self.masternodes.map().map_values(|e: MasternodeEntry| (e.operator_public_key@, e.status))
    }

    /// The number of registered masternodes that are active.
    pub closed spec fn active(&self) -> nat {
        active_count(self.masternodes.seq())
    }

    /// The registered masternodes are those the entries describe.
    pub proof fn lemma_entries_dom(&self)
        ensures
            self.entries().dom() == self@,
    {
        assert(self.entries().dom() =~= self@);
    }

    pub fn new() -> (r: MasternodeList)
        ensures
            r@ == Set::<OutPoint>::empty(),
            r.entries() == Map::<OutPoint, (Seq<u8>, MasternodeStatus)>::empty(),
            r.active() == 0,
    {
        let r = MasternodeList { masternodes: AssocList::new() };
        assert(r@ =~= Set::<OutPoint>::empty());
        assert(r.entries() =~= Map::<OutPoint, (Seq<u8>, MasternodeStatus)>::empty());
        r
    }

    /// Registers a masternode as active under its operator key, replacing an earlier
    /// registration of the same collateral.
    pub fn register(&mut self, id: OutPoint, operator_public_key: Vec<u8>)
        ensures
            final(self)@ == old(self)@.insert(id),
            final(self).entries() == old(self).entries().insert(id, (operator_public_key@, MasternodeStatus::Active)),
    {
        let ghost key = operator_public_key@;
        self.masternodes.insert(id, MasternodeEntry { operator_public_key, status: MasternodeStatus::Active });
        assert(self@ =~= old(self)@.insert(id));
        assert(self.entries() =~= old(self).entries().insert(id, (key, MasternodeStatus::Active)));
    }

    /// Removes a masternode.
    pub fn remove(&mut self, id: &OutPoint)
        ensures
            final(self)@ == old(self)@.remove(*id),
            final(self).entries() == old(self).entries().remove(*id),
    {
        self.masternodes.remove(id);
        assert(self@ =~= old(self)@.remove(*id));
        assert(self.entries() =~= old(self).entries().remove(*id));
    }

    /// Sets the standing of a registered masternode; false, with nothing changed, when it
    /// is not registered.
    pub fn update_masternode_status(&mut self, id: &OutPoint, status: MasternodeStatus) -> (r: bool)
        ensures
            r == old(self)@.contains(*id),
            final(self)@ == old(self)@,
            r ==> final(self).entries() == old(self).entries().insert(*id, (old(self).entries()[*id].0, status)),
            !r ==> final(self).entries() == old(self).entries(),
    {
        match self.masternodes.remove(id) {
            None => {
                assert(self@ =~= old(self)@);
                assert(self.entries() =~= old(self).entries());
                false
            },
            Some(entry) => {
                let ghost key = entry.operator_public_key@;
                self.masternodes.insert(*id, MasternodeEntry { operator_public_key: entry.operator_public_key, status });
                assert(self@ =~= old(self)@);
                assert(self.entries() =~= old(self).entries().insert(*id, (key, status)));
                true
            },
        }
    }

    /// Whether the masternode is registered.
    pub fn get_masternode(&self, id: &OutPoint) -> (r: bool)
        ensures
            r == self@.contains(*id),
    {
        self.masternodes.contains_key(id)
    }

    /// The operator key of a registered masternode, if it is registered.
    pub fn operator_key(&self, id: &OutPoint) -> (r: Option<Vec<u8>>)
        ensures
            r matches Some(k) ==> self.entries().dom().contains(*id) && k@ == self.entries()[*id].0,
            r is None ==> !self.entries().dom().contains(*id),
    {
        match self.masternodes.get(id) {
            Some(e) => Some(crate::bytes::copy_bytes(e.operator_public_key.as_slice())),
            None => None,
        }
    }

    /// A registered masternode whose operator key is `key`, with its standing, if there is
    /// one; which one, when several share the key, is not stated.
    pub fn find_by_operator_key(&self, key: &[u8]) -> (r: Option<(OutPoint, MasternodeStatus)>)
        ensures
            r matches Some(f) ==> self.entries().dom().contains(f.0) && self.entries()[f.0] == (key@, f.1),
            r is None ==> forall|id: OutPoint| #[trigger] self.entries().dom().contains(id) ==> self.entries()[id].0 != key@,
    {
        self.masternodes.lemma_wf();
        let entries = self.masternodes.entries();
        let mut i: usize = 0;
        while i < entries.len()
            invariant
                i <= entries@.len(),
                entries@ == self.masternodes.seq(),
                forall|j: int| 0 <= j < i ==> entries@[j].1.operator_public_key@ != key@,
            decreases entries@.len() - i,
        {
            if bytes_eq(entries[i].1.operator_public_key.as_slice(), key) {
                self.masternodes.lemma_wf();
                assert(self.masternodes.map()[entries@[i as int].0] == entries@[i as int].1);
                return Some((entries[i].0, entries[i].1.status));
            }
            i = i + 1;
        }
        proof {
            assert forall|id: OutPoint| #[trigger] self.entries().dom().contains(id) implies self.entries()[id].0 != key@ by {
                let j = choose|j: int| 0 <= j < entries@.len() && entries@[j].0 == id;
                assert(self.masternodes.map()[entries@[j].0] == entries@[j].1);
            }
        }
        None
    }

    /// The collateral outpoints of the active masternodes, once each, in the order they
    /// were registered.
    pub fn active_ids(&self) -> (r: Vec<OutPoint>)
        ensures
            forall|i: int| 0 <= i < r@.len() ==> self.entries().dom().contains(#[trigger] r@[i])
                && self.entries()[r@[i]].1 == MasternodeStatus::Active,
            forall|op: OutPoint| #[trigger] self.entries().dom().contains(op) && self.entries()[op].1 == MasternodeStatus::Active
                ==> r@.contains(op),
            forall|i: int, j: int| 0 <= i < j < r@.len() ==> r@[i] != r@[j],
    {
        self.masternodes.lemma_wf();
        let entries = self.masternodes.entries();
        let ghost s = self.masternodes.seq();
        let ghost m = self.masternodes.map();
        let mut r: Vec<OutPoint> = Vec::new();
        let ghost mut pos: Seq<int> = Seq::empty();
        let mut i: usize = 0;
        while i < entries.len()
            invariant
                i <= entries@.len(),
                entries@ == s,
                m == self.masternodes.map(),
                crate::assoc::distinct_keys(s),
                r@.len() == pos.len(),
                forall|q: int| 0 <= q < pos.len() ==> 0 <= #[trigger] pos[q] < i && r@[q] == s[pos[q]].0
                    && s[pos[q]].1.status == MasternodeStatus::Active,
                forall|q1: int, q2: int| 0 <= q1 < q2 < pos.len() ==> pos[q1] < pos[q2],
                forall|q: int| 0 <= q < i && (#[trigger] s[q]).1.status == MasternodeStatus::Active ==> r@.contains(s[q].0),
            decreases entries@.len() - i,
        {
            if entries[i].1.status == MasternodeStatus::Active {
                let ghost r0 = r@;
                r.push(entries[i].0);
                proof {
                    pos = pos.push(i as int);
                    assert forall|q: int| 0 <= q < i + 1 && (#[trigger] s[q]).1.status == MasternodeStatus::Active
                        implies r@.contains(s[q].0) by {
                        if q == i {
                            assert(r@[r@.len() - 1] == s[q].0);
                        } else {
                            let k = choose|k: int| 0 <= k < r0.len() && r0[k] == s[q].0;
                            assert(r@[k] == s[q].0);
                        }
                    }
                }
            }
            i = i + 1;
        }
        proof {
            assert forall|q: int| 0 <= q < r@.len() implies self.entries().dom().contains(#[trigger] r@[q])
                && self.entries()[r@[q]].1 == MasternodeStatus::Active by {
                let p = pos[q];
                crate::assoc::lemma_entries_map_at(s, p);
                assert(m.dom().contains(s[p].0));
                assert(m[s[p].0] == s[p].1);
                assert(self.entries().dom().contains(s[p].0));
                assert(self.entries()[s[p].0] == (s[p].1.operator_public_key@, s[p].1.status));
            }
            assert forall|op: OutPoint| #[trigger] self.entries().dom().contains(op) && self.entries()[op].1 == MasternodeStatus::Active
                implies r@.contains(op) by {
                assert(m.dom().contains(op));
                let q = choose|q: int| 0 <= q < s.len() && s[q].0 == op;
                crate::assoc::lemma_entries_map_at(s, q);
                assert(s[q].1.status == MasternodeStatus::Active);
            }
            assert forall|q1: int, q2: int| 0 <= q1 < q2 < r@.len() implies r@[q1] != r@[q2] by {
                assert(pos[q1] < pos[q2]);
            }
        }
        r
    }

    /// The number of registered masternodes that are active.
    pub fn count_active_masternodes(&self) -> (r: u64)
        ensures
            r == self.active(),
    {
        let entries = self.masternodes.entries();
        let mut n: u64 = 0;
        let mut i: usize = 0;
        while i < entries.len()
            invariant
                i <= entries@.len(),
                entries@ == self.masternodes.seq(),
                n == active_count(entries@.take(i as int)),
            decreases entries@.len() - i,
        {
            proof {
                lemma_active_count_bound(entries@.take(i as int));
                assert(entries@.take(i as int + 1).drop_last() =~= entries@.take(i as int));
            }
            if entries[i].1.status == MasternodeStatus::Active {
                n = n + 1;
            }
            i = i + 1;
        }
        assert(entries@.take(entries@.len() as int) =~= entries@);
        n
    }

    /// The total voting power: one vote per registered masternode.
    pub fn total_voting_power(&self) -> (r: u64)
        ensures
            r == self@.len(),
    {
        let n = self.masternodes.len();
        assert(n as int <= usize::MAX);
        n as u64
    }
}

/// A governance proposal.
#[derive(Debug, Clone)]
pub struct GovernanceProposal {
    pub hash: [u8; 32],
    pub proposer: [u8; 32],
    pub description: String,
    pub start_block: u64,
    pub end_block: u64,
    pub voting_power_threshold: u64,
}

/// A choice in a vote.
#[derive(Debug, Clone, Copy, PartialEq, Eq)]
pub enum VoteType {
    Yes,
    No,
    Abstain,
}

/// A masternode's vote on a proposal.
#[derive(Debug, Clone)]
pub struct GovernanceVote {
    pub hash: [u8; 32],
    pub voter: [u8; 32],
    pub proposal_hash: [u8; 32],
    pub vote: VoteType,
}

/// The outcome a proposal can reach.
#[derive(Debug, Clone, Copy, PartialEq, Eq)]
pub enum ProposalOutcome {
    Approved,
    Rejected,
    Expired,
}

/// A proposal with the votes cast on it and their tally.
pub struct GovernanceProposalState {
    pub proposal: GovernanceProposal,
    pub votes: AssocList<OutPoint, GovernanceVote>,
    pub is_active: bool,
    pub yes_votes: u64,
    pub no_votes: u64,
    pub abstain_votes: u64,
    pub total_votes: u64,
}

/// What the governance state keeps of a proposal.
pub struct ProposalStateModel {
    pub proposal: GovernanceProposal,
    pub votes: Map<OutPoint, GovernanceVote>,
    pub is_active: bool,
    pub yes_votes: u64,
    pub no_votes: u64,
    pub abstain_votes: u64,
    pub total_votes: u64,
}

impl View for GovernanceProposalState {
    type V = ProposalStateModel;

    open spec fn view(&self) -> ProposalStateModel {
        ProposalStateModel {
            proposal: self.proposal,
            votes: self.votes.map(),
            is_active: self.is_active,
            yes_votes: self.yes_votes,
            no_votes: self.no_votes,
            abstain_votes: self.abstain_votes,
            total_votes: self.total_votes,
        }
    }
}

/// The proposals being voted on.
pub struct GovernanceState {
    pub active_proposals: AssocList<[u8; 32], GovernanceProposalState>,
}

/// Governance over a list of registered masternodes.
pub struct Governance<'a> {
    pub state: GovernanceState,
    pub masternode_list: &'a MasternodeList,
}

/// The collateral outpoint a voter's key names: the key as txid, output 0.
pub open spec fn voter_outpoint(voter: [u8; 32]) -> OutPoint {
    OutPoint { txid: voter, vout: 0 }
}

/// The tally after one more vote of the given choice.
pub open spec fn tally_after(s: ProposalStateModel, v: VoteType, voter: OutPoint, vote: GovernanceVote) -> ProposalStateModel {
    ProposalStateModel {
        proposal: s.proposal,
        votes: s.votes.insert(voter, vote),
        is_active: s.is_active,
        yes_votes: if v == VoteType::Yes { (s.yes_votes + 1) as u64 } else { s.yes_votes },
        no_votes: if v == VoteType::No { (s.no_votes + 1) as u64 } else { s.no_votes },
        abstain_votes: if v == VoteType::Abstain { (s.abstain_votes + 1) as u64 } else { s.abstain_votes },
        total_votes: (s.total_votes + 1) as u64,
    }
}

/// The tally is consistent: the choices add up to the total.
pub open spec fn tally_consistent(s: ProposalStateModel) -> bool {
    s.yes_votes + s.no_votes + s.abstain_votes == s.total_votes
}

/// Every vote counted keeps the tally consistent.
pub proof fn law_tally_stays_consistent(s: ProposalStateModel, v: VoteType, voter: OutPoint, vote: GovernanceVote)
    requires
        tally_consistent(s),
        s.total_votes < u64::MAX,
    ensures
        tally_consistent(tally_after(s, v, voter, vote)),
        tally_after(s, v, voter, vote).total_votes == s.total_votes + 1,
{
}

/// A counted vote raises the count of its own choice by one and leaves the other two:
/// a Yes vote only the yes votes, a No vote only the no votes, an Abstain vote only the
/// abstentions; the total rises by one.
pub proof fn law_vote_counts_its_choice(s: ProposalStateModel, v: VoteType, voter: OutPoint, vote: GovernanceVote)
    requires
        tally_consistent(s),
        s.total_votes < u64::MAX,
    ensures
        ({
            let t = tally_after(s, v, voter, vote);
            &&& v == VoteType::Yes ==> t.yes_votes == s.yes_votes + 1 && t.no_votes == s.no_votes && t.abstain_votes == s.abstain_votes
            &&& v == VoteType::No ==> t.no_votes == s.no_votes + 1 && t.yes_votes == s.yes_votes && t.abstain_votes == s.abstain_votes
            &&& v == VoteType::Abstain ==> t.abstain_votes == s.abstain_votes + 1 && t.yes_votes == s.yes_votes
                && t.no_votes == s.no_votes
            &&& t.total_votes == s.total_votes + 1
            &&& t.votes == s.votes.insert(voter, vote)
        }),
{
}

impl<'a> Governance<'a> {
    /// The proposals, viewed.
    pub open spec fn proposals(&self) -> Map<[u8; 32], ProposalStateModel> {
        self.state.active_proposals.map().map_values(|p: GovernanceProposalState| p@)
    }

    pub fn new(masternode_list: &'a MasternodeList) -> (r: Governance<'a>)
        ensures
            r.proposals() == Map::<[u8; 32], ProposalStateModel>::empty(),
            r.masternode_list == masternode_list,
    {
        let r = Governance { state: GovernanceState { active_proposals: AssocList::new() }, masternode_list };
        assert(r.proposals() =~= Map::<[u8; 32], ProposalStateModel>::empty());
        r
    }

    /// Admits a proposal whose voting period starts after block 0 and ends after it starts,
    /// under an unused hash, active and with no votes.
    pub fn process_proposal(&mut self, proposal: GovernanceProposal) -> (r: Result<(), String>)
        ensures
            final(self).masternode_list == old(self).masternode_list,
            proposal.start_block == 0 ==> (r matches Err(m) && m@ == "Proposal start block must be greater than 0"@) && final(self).proposals() == old(self).proposals(),
            proposal.start_block != 0 && proposal.end_block <= proposal.start_block ==> (r matches Err(m) && m@ == "Proposal end block must be after start block"@) && final(self).proposals() == old(self).proposals(),
            proposal.start_block != 0 && proposal.end_block > proposal.start_block && old(self).proposals().dom().contains(proposal.hash)
                ==> (r matches Err(m) && m@ == "Proposal with this ID already exists"@) && final(self).proposals() == old(self).proposals(),
            proposal.start_block != 0 && proposal.end_block > proposal.start_block && !old(self).proposals().dom().contains(proposal.hash)
                ==> r is Ok && final(self).proposals() == old(self).proposals().insert(proposal.hash, ProposalStateModel {
                    proposal,
                    votes: Map::empty(),
                    is_active: true,
                    yes_votes: 0,
                    no_votes: 0,
                    abstain_votes: 0,
                    total_votes: 0,
                }),
    {
        if proposal.start_block <= 0 {
            return Err(message("Proposal start block must be greater than 0"));
        }
        if proposal.end_block <= proposal.start_block {
            return Err(message("Proposal end block must be after start block"));
        }
        if self.state.active_proposals.contains_key(&proposal.hash) {
            assert(old(self).proposals().dom() =~= self.state.active_proposals.map().dom());
            return Err(message("Proposal with this ID already exists"));
        }
        let key = proposal.hash;
        let proposal_state = GovernanceProposalState {
            proposal,
            votes: AssocList::new(),
            is_active: true,
            yes_votes: 0,
            no_votes: 0,
            abstain_votes: 0,
            total_votes: 0,
        };
        self.state.active_proposals.insert(key, proposal_state);
        assert(self.proposals() =~= old(self).proposals().insert(key, proposal_state@));
        Ok(())
    }

    /// Counts a vote from a registered masternode on an active proposal within its voting
    /// period; a masternode voting again replaces its recorded vote and is counted again.
    pub fn process_vote(&mut self, vote: GovernanceVote, current_block_height: u64) -> (r: Result<(), String>)
        requires
            old(self).proposals().dom().contains(vote.proposal_hash) ==> old(self).proposals()[vote.proposal_hash].total_votes < u64::MAX
                && tally_consistent(old(self).proposals()[vote.proposal_hash]),
        ensures
            final(self).masternode_list == old(self).masternode_list,
            !old(self).masternode_list@.contains(voter_outpoint(vote.voter)) ==> (r matches Err(m) && m@ == "Voter is not a registered masternode"@) && final(self).proposals() == old(self).proposals(),
            old(self).masternode_list@.contains(voter_outpoint(vote.voter)) && !old(self).proposals().dom().contains(vote.proposal_hash)
                ==> (r matches Err(m) && m@ == "Proposal not found or not active"@) && final(self).proposals() == old(self).proposals(),
            old(self).masternode_list@.contains(voter_outpoint(vote.voter)) && old(self).proposals().dom().contains(vote.proposal_hash) ==> {
                let s = old(self).proposals()[vote.proposal_hash];
                if !s.is_active || current_block_height < s.proposal.start_block || current_block_height > s.proposal.end_block {
                    (r matches Err(m) && m@ == "Proposal is not active or not within voting period"@) && final(self).proposals() == old(self).proposals()
                } else {
                    r is Ok && final(self).proposals() == old(self).proposals().insert(
                        vote.proposal_hash,
                        tally_after(s, vote.vote, voter_outpoint(vote.voter), vote),
                    )
                }
            },
            r is Ok ==> ({
                let s = old(self).proposals()[vote.proposal_hash];
                let t = final(self).proposals()[vote.proposal_hash];
                &&& t.yes_votes == s.yes_votes + (if vote.vote == VoteType::Yes { 1int } else { 0int })
                &&& t.no_votes == s.no_votes + (if vote.vote == VoteType::No { 1int } else { 0int })
                &&& t.abstain_votes == s.abstain_votes + (if vote.vote == VoteType::Abstain { 1int } else { 0int })
                &&& t.total_votes == s.total_votes + 1
            }),
    {
        let mn_id = OutPoint { txid: vote.voter, vout: 0 };
        if !self.masternode_list.get_masternode(&mn_id) {
            return Err(message("Voter is not a registered masternode"));
        }
        let key = vote.proposal_hash;
        let mut proposals = AssocList::new();
        std::mem::swap(&mut proposals, &mut self.state.active_proposals);
        let r = match proposals.remove(&key) {
            Some(mut proposal_state) => {
                if !proposal_state.is_active || current_block_height < proposal_state.proposal.start_block
                    || current_block_height > proposal_state.proposal.end_block {
                    proposals.insert(key, proposal_state);
                    assert(proposals.map() =~= old(self).state.active_proposals.map());
                    self.state.active_proposals = proposals;
                    return Err(message("Proposal is not active or not within voting period"));
                }
                let ghost s0 = proposal_state@;
                match vote.vote {
                    VoteType::Yes => proposal_state.yes_votes = proposal_state.yes_votes + 1,
                    VoteType::No => proposal_state.no_votes = proposal_state.no_votes + 1,
                    VoteType::Abstain => proposal_state.abstain_votes = proposal_state.abstain_votes + 1,
                }
                proposal_state.total_votes = proposal_state.total_votes + 1;
                let choice = vote.vote;
                proposal_state.votes.insert(mn_id, vote);
                assert(proposal_state@ == tally_after(s0, choice, mn_id, vote));
                proposals.insert(key, proposal_state);
                Ok(())
            },
            None => {
                assert(proposals.map() =~= old(self).state.active_proposals.map());
                self.state.active_proposals = proposals;
                return Err(message("Proposal not found or not active"));
            },
        };
        self.state.active_proposals = proposals;
        assert(self.proposals() =~= old(self).proposals().insert(key, tally_after(old(self).proposals()[key], vote.vote, mn_id, vote)));
        r
    }

    /// Closes every active proposal.
    pub fn evaluate_proposals(&mut self, _current_block_height: u64)
        ensures
            final(self).masternode_list == old(self).masternode_list,
            final(self).proposals().dom() == old(self).proposals().dom(),
            forall|h: [u8; 32]| #[trigger] final(self).proposals().dom().contains(h) ==> {
                let s = old(self).proposals()[h];
                final(self).proposals()[h] == ProposalStateModel { is_active: false, ..s }
            },
    {
        let mut proposals = AssocList::new();
        std::mem::swap(&mut proposals, &mut self.state.active_proposals);
        let mut closed: AssocList<[u8; 32], GovernanceProposalState> = AssocList::new();
        let ghost m0 = proposals.map();
        proposals.lemma_wf();
        let mut remaining = proposals;
        let ghost target = m0.map_values(|p: GovernanceProposalState| ProposalStateModel { is_active: false, ..p@ });
        while remaining.len() > 0
            invariant
                forall|h: [u8; 32]| #[trigger] remaining.map().dom().contains(h) ==> m0.dom().contains(h) && remaining.map()[h] == m0[h],
                forall|h: [u8; 32]| #[trigger] closed.map().dom().contains(h) ==> m0.dom().contains(h) && !remaining.map().dom().contains(h)
                    && closed.map()[h]@ == target[h],
                forall|h: [u8; 32]| #[trigger] m0.dom().contains(h) ==> remaining.map().dom().contains(h) || closed.map().dom().contains(h),
                target == m0.map_values(|p: GovernanceProposalState| ProposalStateModel { is_active: false, ..p@ }),
            decreases remaining.map().dom().len(),
        {
            remaining.lemma_wf();
            let key = remaining.entries()[0].0;
            assert(remaining.map().dom().contains(key));
            let mut st = remaining.remove(&key).unwrap();
            st.is_active = false;
            closed.insert(key, st);
        }
        self.state.active_proposals = closed;
        proof {
            assert(self.proposals().dom() =~= old(self).proposals().dom());
        }
    }

    /// Whether the yes votes on a proposal reach 60% of the total voting power (with no
    /// voting power, whether there is any yes vote).
    pub fn is_quorum_reached(&self, proposal_hash: &[u8; 32]) -> (r: bool)
        requires
            self.proposals().dom().contains(*proposal_hash),
        ensures
            r == ({
                let yes = self.proposals()[*proposal_hash].yes_votes as int;
                let total = self.masternode_list@.len() as int;
                if total == 0 { yes > 0 } else { 10 * yes >= 6 * total }
            }),
    {
        let state = self.state.active_proposals.get(proposal_hash).unwrap();
        let total_voting_power = self.masternode_list.total_voting_power();
        let approved_power = state.yes_votes;
        if total_voting_power == 0 {
            return approved_power > 0;
        }
        (approved_power as u128) * 10 >= (total_voting_power as u128) * 6
    }
}

/// A registry of proposals with the votes cast on each, in order.
pub struct GovernanceSystem {
    proposals: AssocList<[u8; 32], GovernanceProposal>,
    votes: AssocList<[u8; 32], Vec<GovernanceVote>>,
}

impl GovernanceSystem {
    /// The proposals by hash.
    pub closed spec fn proposal_map(&self) -> Map<[u8; 32], GovernanceProposal> {
        self.proposals.map()
    }

    /// The votes cast on each proposal, in order; a proposal with none cast has no entry.
    pub closed spec fn vote_map(&self) -> Map<[u8; 32], Seq<GovernanceVote>> {
        self.votes.map().map_values(|v: Vec<GovernanceVote>| v@)
    }

    pub fn new() -> (r: GovernanceSystem)
        ensures
            r.proposal_map() == Map::<[u8; 32], GovernanceProposal>::empty(),
            r.vote_map() == Map::<[u8; 32], Seq<GovernanceVote>>::empty(),
    {
        let r = GovernanceSystem { proposals: AssocList::new(), votes: AssocList::new() };
        assert(r.vote_map() =~= Map::<[u8; 32], Seq<GovernanceVote>>::empty());
        r
    }

    /// Registers a proposal under an unused hash.
    pub fn submit_proposal(&mut self, proposal: GovernanceProposal) -> (r: Result<(), String>)
        ensures
            final(self).vote_map() == old(self).vote_map(),
            old(self).proposal_map().dom().contains(proposal.hash) ==> (r matches Err(m) && m@ == "Proposal with this ID already exists"@) && final(self).proposal_map() == old(self).proposal_map(),
            !old(self).proposal_map().dom().contains(proposal.hash) ==> r is Ok && final(self).proposal_map() == old(self).proposal_map().insert(proposal.hash, proposal),
    {
        if self.proposals.contains_key(&proposal.hash) {
            return Err(message("Proposal with this ID already exists"));
        }
        let key = proposal.hash;
        self.proposals.insert(key, proposal);
        Ok(())
    }

    /// Records a vote on a registered proposal, after the votes already cast on it.
    pub fn cast_vote(&mut self, vote: GovernanceVote) -> (r: Result<(), String>)
        ensures
            final(self).proposal_map() == old(self).proposal_map(),
            !old(self).proposal_map().dom().contains(vote.proposal_hash) ==> (r matches Err(m) && m@ == "Proposal not found"@) && final(self).vote_map() == old(self).vote_map(),
            old(self).proposal_map().dom().contains(vote.proposal_hash) ==> r is Ok && final(self).vote_map() == old(self).vote_map().insert(
                vote.proposal_hash,
                if old(self).vote_map().dom().contains(vote.proposal_hash) {
                    old(self).vote_map()[vote.proposal_hash].push(vote)
                } else {
                    seq![vote]
                },
            ),
    {
        if !self.proposals.contains_key(&vote.proposal_hash) {
            return Err(message("Proposal not found"));
        }
        let key = vote.proposal_hash;
        let mut list = match self.votes.remove(&key) {
            Some(v) => v,
            None => Vec::new(),
        };
        let ghost before = list@;
        list.push(vote);
        proof {
            if !old(self).vote_map().dom().contains(key) {
                assert(list@ =~= seq![vote]);
            }
        }
        self.votes.insert(key, list);
        assert(self.vote_map() =~= old(self).vote_map().insert(
            key,
            if old(self).vote_map().dom().contains(key) {
                old(self).vote_map()[key].push(vote)
            } else {
                seq![vote]
            },
        ));
        Ok(())
    }

    pub fn get_proposal(&self, proposal_hash: [u8; 32]) -> (r: Option<&GovernanceProposal>)
        ensures
            r matches Some(p) ==> self.proposal_map().dom().contains(proposal_hash) && *p == self.proposal_map()[proposal_hash],
            r is None ==> !self.proposal_map().dom().contains(proposal_hash),
    {
        self.proposals.get(&proposal_hash)
    }

    pub fn get_votes(&self, proposal_hash: [u8; 32]) -> (r: Option<&Vec<GovernanceVote>>)
        ensures
            r matches Some(v) ==> self.vote_map().dom().contains(proposal_hash) && v@ == self.vote_map()[proposal_hash],
            r is None ==> !self.vote_map().dom().contains(proposal_hash),
    {
        self.votes.get(&proposal_hash)
    }
}

} // verus!
