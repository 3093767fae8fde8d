use rusty_core::governance::{GovernanceProposal, GovernanceSystem, GovernanceVote};

fn generate_proposals() -> Vec<GovernanceProposal> {
    vec![
        GovernanceProposal {
            hash: [1u8; 32],
            proposer: [0u8; 32],
            description: "Protocol Upgrade Proposal".to_string(),
            start_block: 100,
            end_block: 200,
            voting_power_threshold: 1000,
        },
        GovernanceProposal {
            hash: [2u8; 32],
            proposer: [1u8; 32],
            description: "Parameter Change Proposal: Min Block Time".to_string(),
            start_block: 150,
            end_block: 250,
            voting_power_threshold: 500,
        },
        GovernanceProposal {
            hash: [3u8; 32],
            proposer: [2u8; 32],
            description: "Treasury Spend Proposal for Development".to_string(),
            start_block: 200,
            end_block: 300,
            voting_power_threshold: 2000,
        },
    ]
}

fn fuzz_governance_proposals(_data: &[u8]) {
    let mut governance_system = GovernanceSystem::new();
    let proposals = generate_proposals();
    let votes: Vec<GovernanceVote> = Vec::new();
    for proposal in proposals.iter().cloned() {
        let _ = governance_system.submit_proposal(proposal);
    }
    for vote in votes.iter().cloned() {
        let _ = governance_system.cast_vote(vote);
    }
    for proposal in proposals {
        let _ = governance_system.get_votes(proposal.hash);
    }
}

#[test]
fn test_fuzz_governance_proposals() {
    let data = &[0; 1024];
    fuzz_governance_proposals(data);
}
