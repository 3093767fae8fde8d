use rusty_core::consensus::error::ConsensusError;
use rusty_core::types::OutPoint;

#[test]
fn error_texts() {
    assert_eq!(ConsensusError::BlockValidation("bad".to_string()).to_string(), "Block validation failed: bad");
    assert_eq!(ConsensusError::EmptyBlock.to_string(), "Empty block");
    assert_eq!(ConsensusError::InvalidProofOfWork.to_string(), "Invalid proof of work");
    assert_eq!(ConsensusError::StateRootNotFound(77).to_string(), "State root not found for block height: 77");
    assert_eq!(ConsensusError::InsufficientFee(1, 2).to_string(), "Insufficient fee: got 1, expected at least 2");
    assert_eq!(
        ConsensusError::ProposalNotFound([0xab; 32]).to_string(),
        format!("Proposal with ID 0x{} not found", "ab".repeat(32))
    );
    assert_eq!(
        ConsensusError::ProposalAlreadyExists([1; 32]).to_string(),
        format!("Proposal with ID 0x{} already exists", "01".repeat(32))
    );
    assert_eq!(
        ConsensusError::VoteNotFound([0x10; 32], [0xff; 32]).to_string(),
        format!("Vote not found for proposal 0x{} and voter 0x{}", "10".repeat(32), "ff".repeat(32))
    );
    let op = OutPoint { txid: [0x0f; 32], vout: 9 };
    assert_eq!(ConsensusError::MissingPreviousOutput(op).to_string(), format!("Missing previous output: {}:9", "0f".repeat(32)));
    assert_eq!(
        ConsensusError::FailedToFindHistoricalUTXO(op).to_string(),
        format!("Failed to find historical UTXO: {}:9", "0f".repeat(32))
    );
}

#[test]
fn error_from_text_is_internal() {
    let e: ConsensusError = "boom".to_string().into();
    assert_eq!(e, ConsensusError::Internal("boom".to_string()));
    assert_eq!(e.to_string(), "Internal error: boom");
}
