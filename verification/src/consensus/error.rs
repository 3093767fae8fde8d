//! The errors that consensus validation reports.
use vstd::prelude::*;
use crate::types::OutPoint;
use crate::text::{decimal, hex_encode, hex_text, push_decimal, push_text};

verus! {

/// Why a block, a transaction or a state change was refused.
#[derive(Debug, PartialEq, Eq, Clone)]
pub enum ConsensusError {
    BlockValidation(String),
    TransactionValidation(String),
    UtxoSetError(String),
    StateError(String),
    ProofOfWorkError(String),
    ScriptError(String),
    CoinbaseError(String),
    MasternodeError(String),
    CoinbaseMaturity(String),
    DustLimit(String),
    NegativeFee(String),
    TrieError(String),
    SerializationError(String),
    MissingPreviousOutput(OutPoint),
    EmptyBlock,
    ThresholdSignatureError(String),
    DKGError(String),
    Other(String),
    Internal(String),
    InvalidBlock(String),
    StateRootNotFound(u64),
    InvalidProofOfWork,
    ProposalAlreadyExists([u8; 32]),
    ProposalNotFound([u8; 32]),
    VoteNotFound([u8; 32], [u8; 32]),
    RuleViolation(String),
    InvalidScript(String),
    InvalidCoinbase(String),
    InsufficientFee(u64, u64),
    InvalidLockTime(String),
    InvalidTicket(String),
    DuplicateTicketVote(String),
    ImmatureTicket(String),
    ExpiredTicket(String),
    DatabaseError(String),
    FailedToFindHistoricalUTXO(OutPoint),
    InvalidSignature(String),
    InvalidTicketVote(String),
    InvalidPoSeResponse(String),
    PoSeChallengeExpired(String),
    NetworkError(String),
    InsufficientTicketVotes,
}

/// What an error says, with its text as characters.
pub enum ErrorModel {
    BlockValidation(Seq<char>),
    TransactionValidation(Seq<char>),
    UtxoSetError(Seq<char>),
    StateError(Seq<char>),
    ProofOfWorkError(Seq<char>),
    ScriptError(Seq<char>),
    CoinbaseError(Seq<char>),
    MasternodeError(Seq<char>),
    CoinbaseMaturity(Seq<char>),
    DustLimit(Seq<char>),
    NegativeFee(Seq<char>),
    TrieError(Seq<char>),
    SerializationError(Seq<char>),
    MissingPreviousOutput(OutPoint),
    EmptyBlock,
    ThresholdSignatureError(Seq<char>),
    DKGError(Seq<char>),
    Other(Seq<char>),
    Internal(Seq<char>),
    InvalidBlock(Seq<char>),
    StateRootNotFound(u64),
    InvalidProofOfWork,
    ProposalAlreadyExists([u8; 32]),
    ProposalNotFound([u8; 32]),
    VoteNotFound([u8; 32], [u8; 32]),
    RuleViolation(Seq<char>),
    InvalidScript(Seq<char>),
    InvalidCoinbase(Seq<char>),
    InsufficientFee(u64, u64),
    InvalidLockTime(Seq<char>),
    InvalidTicket(Seq<char>),
    DuplicateTicketVote(Seq<char>),
    ImmatureTicket(Seq<char>),
    ExpiredTicket(Seq<char>),
    DatabaseError(Seq<char>),
    FailedToFindHistoricalUTXO(OutPoint),
    InvalidSignature(Seq<char>),
    InvalidTicketVote(Seq<char>),
    InvalidPoSeResponse(Seq<char>),
    PoSeChallengeExpired(Seq<char>),
    NetworkError(Seq<char>),
    InsufficientTicketVotes,
}

impl View for ConsensusError {
    type V = ErrorModel;

    open spec fn view(&self) -> ErrorModel {
        match self {
            ConsensusError::BlockValidation(a0) => ErrorModel::BlockValidation(a0@),
            ConsensusError::TransactionValidation(a0) => ErrorModel::TransactionValidation(a0@),
            ConsensusError::UtxoSetError(a0) => ErrorModel::UtxoSetError(a0@),
            ConsensusError::StateError(a0) => ErrorModel::StateError(a0@),
            ConsensusError::ProofOfWorkError(a0) => ErrorModel::ProofOfWorkError(a0@),
            ConsensusError::ScriptError(a0) => ErrorModel::ScriptError(a0@),
            ConsensusError::CoinbaseError(a0) => ErrorModel::CoinbaseError(a0@),
            ConsensusError::MasternodeError(a0) => ErrorModel::MasternodeError(a0@),
            ConsensusError::CoinbaseMaturity(a0) => ErrorModel::CoinbaseMaturity(a0@),
            ConsensusError::DustLimit(a0) => ErrorModel::DustLimit(a0@),
            ConsensusError::NegativeFee(a0) => ErrorModel::NegativeFee(a0@),
            ConsensusError::TrieError(a0) => ErrorModel::TrieError(a0@),
            ConsensusError::SerializationError(a0) => ErrorModel::SerializationError(a0@),
            ConsensusError::MissingPreviousOutput(a0) => ErrorModel::MissingPreviousOutput(*a0),
            ConsensusError::EmptyBlock => ErrorModel::EmptyBlock,
            ConsensusError::ThresholdSignatureError(a0) => ErrorModel::ThresholdSignatureError(a0@),
            ConsensusError::DKGError(a0) => ErrorModel::DKGError(a0@),
            ConsensusError::Other(a0) => ErrorModel::Other(a0@),
            ConsensusError::Internal(a0) => ErrorModel::Internal(a0@),
            ConsensusError::InvalidBlock(a0) => ErrorModel::InvalidBlock(a0@),
            ConsensusError::StateRootNotFound(a0) => ErrorModel::StateRootNotFound(*a0),
            ConsensusError::InvalidProofOfWork => ErrorModel::InvalidProofOfWork,
            ConsensusError::ProposalAlreadyExists(a0) => ErrorModel::ProposalAlreadyExists(*a0),
            ConsensusError::ProposalNotFound(a0) => ErrorModel::ProposalNotFound(*a0),
            ConsensusError::VoteNotFound(a0, a1) => ErrorModel::VoteNotFound(*a0, *a1),
            ConsensusError::RuleViolation(a0) => ErrorModel::RuleViolation(a0@),
            ConsensusError::InvalidScript(a0) => ErrorModel::InvalidScript(a0@),
            ConsensusError::InvalidCoinbase(a0) => ErrorModel::InvalidCoinbase(a0@),
            ConsensusError::InsufficientFee(a0, a1) => ErrorModel::InsufficientFee(*a0, *a1),
            ConsensusError::InvalidLockTime(a0) => ErrorModel::InvalidLockTime(a0@),
            ConsensusError::InvalidTicket(a0) => ErrorModel::InvalidTicket(a0@),
            ConsensusError::DuplicateTicketVote(a0) => ErrorModel::DuplicateTicketVote(a0@),
            ConsensusError::ImmatureTicket(a0) => ErrorModel::ImmatureTicket(a0@),
            ConsensusError::ExpiredTicket(a0) => ErrorModel::ExpiredTicket(a0@),
            ConsensusError::DatabaseError(a0) => ErrorModel::DatabaseError(a0@),
            ConsensusError::FailedToFindHistoricalUTXO(a0) => ErrorModel::FailedToFindHistoricalUTXO(*a0),
            ConsensusError::InvalidSignature(a0) => ErrorModel::InvalidSignature(a0@),
            ConsensusError::InvalidTicketVote(a0) => ErrorModel::InvalidTicketVote(a0@),
            ConsensusError::InvalidPoSeResponse(a0) => ErrorModel::InvalidPoSeResponse(a0@),
            ConsensusError::PoSeChallengeExpired(a0) => ErrorModel::PoSeChallengeExpired(a0@),
            ConsensusError::NetworkError(a0) => ErrorModel::NetworkError(a0@),
            ConsensusError::InsufficientTicketVotes => ErrorModel::InsufficientTicketVotes,
        }
    }
}

/// A message for an error.
pub fn message(text: &str) -> (r: String)
    ensures
        r@ == text@,
{
    text.to_owned()
}

/// A hash as error messages write it: `0x` and its lowercase hexadecimal digits.
pub open spec fn hash_text(h: [u8; 32]) -> Seq<char> {
    "0x"@ + hex_text(h@)
}

/// An outpoint as error messages write it: its txid in hexadecimal, a colon and its index.
pub open spec fn outpoint_label(o: OutPoint) -> Seq<char> {
    hex_text(o.txid@) + ":"@ + decimal(o.vout as nat)
}

/// What an error says.
pub open spec fn error_text(e: ErrorModel) -> Seq<char> {
    match e {
        ErrorModel::BlockValidation(m) => "Block validation failed: "@ + m,
        ErrorModel::TransactionValidation(m) => "Transaction validation failed: "@ + m,
        ErrorModel::UtxoSetError(m) => "UTXO set error: "@ + m,
        ErrorModel::StateError(m) => "State error: "@ + m,
        ErrorModel::ProofOfWorkError(m) => "Proof of Work verification failed: "@ + m,
        ErrorModel::ScriptError(m) => "Script verification failed: "@ + m,
        ErrorModel::CoinbaseError(m) => "Coinbase transaction error: "@ + m,
        ErrorModel::MasternodeError(m) => "Masternode error: "@ + m,
        ErrorModel::CoinbaseMaturity(m) => "Coinbase UTXO not mature: "@ + m,
        ErrorModel::DustLimit(m) => "Output value below dust limit: "@ + m,
        ErrorModel::NegativeFee(m) => "Negative fee: "@ + m,
        ErrorModel::TrieError(m) => "Merkle Patricia Trie error: "@ + m,
        ErrorModel::SerializationError(m) => "Serialization error: "@ + m,
        ErrorModel::MissingPreviousOutput(o) => "Missing previous output: "@ + outpoint_label(o),
        ErrorModel::EmptyBlock => "Empty block"@,
        ErrorModel::ThresholdSignatureError(m) => "Threshold signature error: "@ + m,
        ErrorModel::DKGError(m) => "DKG error: "@ + m,
        ErrorModel::Other(m) => "Other consensus error: "@ + m,
        ErrorModel::Internal(m) => "Internal error: "@ + m,
        ErrorModel::InvalidBlock(m) => "Invalid block: "@ + m,
        ErrorModel::StateRootNotFound(h) => "State root not found for block height: "@ + decimal(h as nat),
        ErrorModel::InvalidProofOfWork => "Invalid proof of work"@,
        ErrorModel::ProposalAlreadyExists(h) => "Proposal with ID "@ + hash_text(h) + " already exists"@,
        ErrorModel::ProposalNotFound(h) => "Proposal with ID "@ + hash_text(h) + " not found"@,
        ErrorModel::VoteNotFound(h1, h2) => "Vote not found for proposal "@ + hash_text(h1) + " and voter "@ + hash_text(h2),
        ErrorModel::RuleViolation(m) => "Rule violation: "@ + m,
        ErrorModel::InvalidScript(m) => "Invalid script: "@ + m,
        ErrorModel::InvalidCoinbase(m) => "Invalid coinbase: "@ + m,
        ErrorModel::InsufficientFee(x, y) => "Insufficient fee: got "@ + decimal(x as nat) + ", expected at least "@ + decimal(y as nat),
        ErrorModel::InvalidLockTime(m) => "Invalid lock time: "@ + m,
        ErrorModel::InvalidTicket(m) => "Invalid ticket: "@ + m,
        ErrorModel::DuplicateTicketVote(m) => "Duplicate ticket vote: "@ + m,
        ErrorModel::ImmatureTicket(m) => "Immature ticket: "@ + m,
        ErrorModel::ExpiredTicket(m) => "Expired ticket: "@ + m,
        ErrorModel::DatabaseError(m) => "Database error: "@ + m,
        ErrorModel::FailedToFindHistoricalUTXO(o) => "Failed to find historical UTXO: "@ + outpoint_label(o),
        ErrorModel::InvalidSignature(m) => "Invalid signature: "@ + m,
        ErrorModel::InvalidTicketVote(m) => "Invalid ticket vote: "@ + m,
        ErrorModel::InvalidPoSeResponse(m) => "Invalid PoSe response: "@ + m,
        ErrorModel::PoSeChallengeExpired(m) => "PoSe challenge expired: "@ + m,
        ErrorModel::NetworkError(m) => "Network error: "@ + m,
        ErrorModel::InsufficientTicketVotes => "Insufficient ticket votes"@,
    }
}

/// A hash as error messages write it.
fn push_hash_text(s: &mut String, h: &[u8; 32])
    ensures
        final(s)@ == old(s)@ + hash_text(*h),
{
    push_text(s, "0x");
    let hex = hex_encode(h.as_slice());
    push_text(s, hex.as_str());
    proof {
        reveal_strlit("0x");
    }
    assert(final(s)@ =~= old(s)@ + hash_text(*h));
}

/// An outpoint as error messages write it.
fn push_outpoint_label(s: &mut String, o: &OutPoint)
    ensures
        final(s)@ == old(s)@ + outpoint_label(*o),
{
    let hex = hex_encode(o.txid.as_slice());
    push_text(s, hex.as_str());
    push_text(s, ":");
    push_decimal(s, o.vout as u64);
    assert(final(s)@ =~= old(s)@ + outpoint_label(*o));
}

impl ConsensusError {
    /// What the error says, as `error_text` states.
    pub fn to_string(&self) -> (r: String)
        ensures
            r@ == error_text(self@),
    {
        match self {
            ConsensusError::BlockValidation(m) => {
                let mut s = message("Block validation failed: ");
                push_text(&mut s, m.as_str());
                s
            },
            ConsensusError::TransactionValidation(m) => {
                let mut s = message("Transaction validation failed: ");
                push_text(&mut s, m.as_str());
                s
            },
            ConsensusError::UtxoSetError(m) => {
                let mut s = message("UTXO set error: ");
                push_text(&mut s, m.as_str());
                s
            },
            ConsensusError::StateError(m) => {
                let mut s = message("State error: ");
                push_text(&mut s, m.as_str());
                s
            },
            ConsensusError::ProofOfWorkError(m) => {
                let mut s = message("Proof of Work verification failed: ");
                push_text(&mut s, m.as_str());
                s
            },
            ConsensusError::ScriptError(m) => {
                let mut s = message("Script verification failed: ");
                push_text(&mut s, m.as_str());
                s
            },
            ConsensusError::CoinbaseError(m) => {
                let mut s = message("Coinbase transaction error: ");
                push_text(&mut s, m.as_str());
                s
            },
            ConsensusError::MasternodeError(m) => {
                let mut s = message("Masternode error: ");
                push_text(&mut s, m.as_str());
                s
            },
            ConsensusError::CoinbaseMaturity(m) => {
                let mut s = message("Coinbase UTXO not mature: ");
                push_text(&mut s, m.as_str());
                s
            },
            ConsensusError::DustLimit(m) => {
                let mut s = message("Output value below dust limit: ");
                push_text(&mut s, m.as_str());
                s
            },
            ConsensusError::NegativeFee(m) => {
                let mut s = message("Negative fee: ");
                push_text(&mut s, m.as_str());
                s
            },
            ConsensusError::TrieError(m) => {
                let mut s = message("Merkle Patricia Trie error: ");
                push_text(&mut s, m.as_str());
                s
            },
            ConsensusError::SerializationError(m) => {
                let mut s = message("Serialization error: ");
                push_text(&mut s, m.as_str());
                s
            },
            ConsensusError::MissingPreviousOutput(o) => {
                let mut s = message("Missing previous output: ");
                push_outpoint_label(&mut s, o);
                s
            },
            ConsensusError::EmptyBlock => message("Empty block"),
            ConsensusError::ThresholdSignatureError(m) => {
                let mut s = message("Threshold signature error: ");
                push_text(&mut s, m.as_str());
                s
            },
            ConsensusError::DKGError(m) => {
                let mut s = message("DKG error: ");
                push_text(&mut s, m.as_str());
                s
            },
            ConsensusError::Other(m) => {
                let mut s = message("Other consensus error: ");
                push_text(&mut s, m.as_str());
                s
            },
            ConsensusError::Internal(m) => {
                let mut s = message("Internal error: ");
                push_text(&mut s, m.as_str());
                s
            },
            ConsensusError::InvalidBlock(m) => {
                let mut s = message("Invalid block: ");
                push_text(&mut s, m.as_str());
                s
            },
            ConsensusError::StateRootNotFound(h) => {
                let mut s = message("State root not found for block height: ");
                push_decimal(&mut s, *h);
                s
            },
            ConsensusError::InvalidProofOfWork => message("Invalid proof of work"),
            ConsensusError::ProposalAlreadyExists(h) => {
                let mut s = message("Proposal with ID ");
                push_hash_text(&mut s, h);
                push_text(&mut s, " already exists");
                s
            },
            ConsensusError::ProposalNotFound(h) => {
                let mut s = message("Proposal with ID ");
                push_hash_text(&mut s, h);
                push_text(&mut s, " not found");
                s
            },
            ConsensusError::VoteNotFound(h1, h2) => {
                let mut s = message("Vote not found for proposal ");
                push_hash_text(&mut s, h1);
                push_text(&mut s, " and voter ");
                push_hash_text(&mut s, h2);
                s
            },
            ConsensusError::RuleViolation(m) => {
                let mut s = message("Rule violation: ");
                push_text(&mut s, m.as_str());
                s
            },
            ConsensusError::InvalidScript(m) => {
                let mut s = message("Invalid script: ");
                push_text(&mut s, m.as_str());
                s
            },
            ConsensusError::InvalidCoinbase(m) => {
                let mut s = message("Invalid coinbase: ");
                push_text(&mut s, m.as_str());
                s
            },
            ConsensusError::InsufficientFee(x, y) => {
                let mut s = message("Insufficient fee: got ");
                push_decimal(&mut s, *x);
                push_text(&mut s, ", expected at least ");
                push_decimal(&mut s, *y);
                s
            },
            ConsensusError::InvalidLockTime(m) => {
                let mut s = message("Invalid lock time: ");
                push_text(&mut s, m.as_str());
                s
            },
            ConsensusError::InvalidTicket(m) => {
                let mut s = message("Invalid ticket: ");
                push_text(&mut s, m.as_str());
                s
            },
            ConsensusError::DuplicateTicketVote(m) => {
                let mut s = message("Duplicate ticket vote: ");
                push_text(&mut s, m.as_str());
                s
            },
            ConsensusError::ImmatureTicket(m) => {
                let mut s = message("Immature ticket: ");
                push_text(&mut s, m.as_str());
                s
            },
            ConsensusError::ExpiredTicket(m) => {
                let mut s = message("Expired ticket: ");
                push_text(&mut s, m.as_str());
                s
            },
            ConsensusError::DatabaseError(m) => {
                let mut s = message("Database error: ");
                push_text(&mut s, m.as_str());
                s
            },
            ConsensusError::FailedToFindHistoricalUTXO(o) => {
                let mut s = message("Failed to find historical UTXO: ");
                push_outpoint_label(&mut s, o);
                s
            },
            ConsensusError::InvalidSignature(m) => {
                let mut s = message("Invalid signature: ");
                push_text(&mut s, m.as_str());
                s
            },
            ConsensusError::InvalidTicketVote(m) => {
                let mut s = message("Invalid ticket vote: ");
                push_text(&mut s, m.as_str());
                s
            },
            ConsensusError::InvalidPoSeResponse(m) => {
                let mut s = message("Invalid PoSe response: ");
                push_text(&mut s, m.as_str());
                s
            },
            ConsensusError::PoSeChallengeExpired(m) => {
                let mut s = message("PoSe challenge expired: ");
                push_text(&mut s, m.as_str());
                s
            },
            ConsensusError::NetworkError(m) => {
                let mut s = message("Network error: ");
                push_text(&mut s, m.as_str());
                s
            },
            ConsensusError::InsufficientTicketVotes => message("Insufficient ticket votes"),
        }
    }
}

impl From<String> for ConsensusError {
    fn from(err: String) -> (r: ConsensusError) {
        ConsensusError::Internal(err)
    }
}

impl vstd::std_specs::convert::FromSpecImpl<String> for ConsensusError {
    open spec fn obeys_from_spec() -> bool {
        true
    }

    open spec fn from_spec(err: String) -> ConsensusError {
        ConsensusError::Internal(err)
    }
}

} // verus!
