//! The chain's data: outpoints, inputs, outputs, transactions, headers, blocks, ticket
//! votes and tickets, each with a mathematical view that the contracts speak of.
use vstd::prelude::*;
use crate::bytes::{copy_bytes, hash_eq};

verus! {

/// A 32-byte digest.
pub type Hash = [u8; 32];

/// A reference to one output of an earlier transaction.
#[derive(Clone, Copy, Debug, PartialEq, Eq, Hash)]
pub struct OutPoint {
    pub txid: [u8; 32],
    pub vout: u32,
}

/// Whether two outpoints name the same output.
pub fn outpoint_eq(a: &OutPoint, b: &OutPoint) -> (r: bool)
    ensures
        r == (*a == *b),
{
    if a.vout != b.vout {
        return false;
    }
    hash_eq(&a.txid, &b.txid)
}

/// A byte string list, viewed element by element.
pub open spec fn byte_lists(v: Seq<Vec<u8>>) -> Seq<Seq<u8>> {
    v.map_values(|b: Vec<u8>| b@)
}

/// A fresh copy of a list of byte strings.
pub fn copy_byte_lists(v: &Vec<Vec<u8>>) -> (r: Vec<Vec<u8>>)
    ensures
        byte_lists(r@) == byte_lists(v@),
{
    let mut r: Vec<Vec<u8>> = Vec::new();
    let mut i: usize = 0;
    while i < v.len()
        invariant
            i <= v@.len(),
            r@.len() == i,
            forall|j: int| 0 <= j < i ==> #[trigger] r@[j]@ == v@[j]@,
        decreases v@.len() - i,
    {
        let c = copy_bytes(v[i].as_slice());
        r.push(c);
        i = i + 1;
    }
    assert(byte_lists(r@) =~= byte_lists(v@));
    r
}

/// What an input is: the output it spends, its unlocking script, its sequence number and
/// its witness items.
pub struct TxInputModel {
    pub previous_output: OutPoint,
    pub script_sig: Seq<u8>,
    pub sequence: u32,
    pub witness: Seq<Seq<u8>>,
}

#[derive(Clone, Debug, PartialEq, Eq)]
pub struct TxInput {
    pub previous_output: OutPoint,
    pub script_sig: Vec<u8>,
    pub sequence: u32,
    pub witness: Vec<Vec<u8>>,
}

impl View for TxInput {
    type V = TxInputModel;

    open spec fn view(&self) -> TxInputModel {
        TxInputModel {
            previous_output: self.previous_output,
            script_sig: self.script_sig@,
            sequence: self.sequence,
            witness: byte_lists(self.witness@),
        }
    }
}

impl TxInput {
    /// An input built from its parts.
    pub fn from_outpoint(
        previous_output: OutPoint,
        script_sig: Vec<u8>,
        sequence: u32,
        witness: Vec<Vec<u8>>,
    ) -> (r: TxInput)
        ensures
            r.previous_output == previous_output,
            r.script_sig == script_sig,
            r.sequence == sequence,
            r.witness == witness,
    {
        TxInput { previous_output, script_sig, sequence, witness }
    }

    /// A fresh copy of this input.
    pub fn deep_copy(&self) -> (r: TxInput)
        ensures
            r@ == self@,
    {
        TxInput {
            previous_output: self.previous_output,
            script_sig: copy_bytes(self.script_sig.as_slice()),
            sequence: self.sequence,
            witness: copy_byte_lists(&self.witness),
        }
    }
}

/// What an output is: its value, its locking script and an optional memo.
pub struct TxOutputModel {
    pub value: u64,
    pub script_pubkey: Seq<u8>,
    pub memo: Option<Seq<u8>>,
}

#[derive(Clone, Debug, PartialEq, Eq)]
pub struct TxOutput {
    pub value: u64,
    pub script_pubkey: Vec<u8>,
    pub memo: Option<Vec<u8>>,
}

/// An optional byte string, viewed.
pub open spec fn opt_bytes(m: Option<Vec<u8>>) -> Option<Seq<u8>> {
    match m {
        Some(b) => Some(b@),
        None => None,
    }
}

impl View for TxOutput {
    type V = TxOutputModel;

    open spec fn view(&self) -> TxOutputModel {
        TxOutputModel { value: self.value, script_pubkey: self.script_pubkey@, memo: opt_bytes(self.memo) }
    }
}

impl TxOutput {
    /// A fresh copy of this output.
    pub fn deep_copy(&self) -> (r: TxOutput)
        ensures
            r@ == self@,
    {
        let memo = match &self.memo {
            Some(m) => Some(copy_bytes(m.as_slice())),
            None => None,
        };
        TxOutput { value: self.value, script_pubkey: copy_bytes(self.script_pubkey.as_slice()), memo }
    }
}

/// An unspent output as the UTXO set keeps it.
pub struct UtxoModel {
    pub output: TxOutputModel,
    pub is_coinbase: bool,
    pub creation_height: u64,
}

#[derive(Clone, Debug, PartialEq, Eq)]
pub struct Utxo {
    pub output: TxOutput,
    pub is_coinbase: bool,
    pub creation_height: u64,
}

impl View for Utxo {
    type V = UtxoModel;

    open spec fn view(&self) -> UtxoModel {
        UtxoModel {
            output: self.output@,
            is_coinbase: self.is_coinbase,
            creation_height: self.creation_height,
        }
    }
}

impl Utxo {
    /// A fresh copy of this UTXO.
    pub fn deep_copy(&self) -> (r: Utxo)
        ensures
            r@ == self@,
    {
        Utxo {
            output: self.output.deep_copy(),
            is_coinbase: self.is_coinbase,
            creation_height: self.creation_height,
        }
    }
}

/// A list of inputs, viewed.
pub open spec fn inputs_view(v: Seq<TxInput>) -> Seq<TxInputModel> {
    v.map_values(|i: TxInput| i@)
}

/// A list of outputs, viewed.
pub open spec fn outputs_view(v: Seq<TxOutput>) -> Seq<TxOutputModel> {
    v.map_values(|o: TxOutput| o@)
}

/// A fresh copy of a list of inputs.
pub fn copy_inputs(v: &Vec<TxInput>) -> (r: Vec<TxInput>)
    ensures
        inputs_view(r@) == inputs_view(v@),
{
    let mut r: Vec<TxInput> = Vec::new();
    let mut i: usize = 0;
    while i < v.len()
        invariant
            i <= v@.len(),
            r@.len() == i,
            forall|j: int| 0 <= j < i ==> #[trigger] r@[j]@ == v@[j]@,
        decreases v@.len() - i,
    {
        r.push(v[i].deep_copy());
        i = i + 1;
    }
    assert(inputs_view(r@) =~= inputs_view(v@));
    r
}

/// A fresh copy of a list of outputs.
pub fn copy_outputs(v: &Vec<TxOutput>) -> (r: Vec<TxOutput>)
    ensures
        outputs_view(r@) == outputs_view(v@),
{
    let mut r: Vec<TxOutput> = Vec::new();
    let mut i: usize = 0;
    while i < v.len()
        invariant
            i <= v@.len(),
            r@.len() == i,
            forall|j: int| 0 <= j < i ==> #[trigger] r@[j]@ == v@[j]@,
        decreases v@.len() - i,
    {
        r.push(v[i].deep_copy());
        i = i + 1;
    }
    assert(outputs_view(r@) =~= outputs_view(v@));
    r
}

/// The identity a masternode registers with.
#[derive(Clone, Debug, PartialEq, Eq)]
pub struct MasternodeIdentity {
    pub collateral_outpoint: OutPoint,
    pub operator_public_key: [u8; 32],
    pub collateral_ownership_public_key: [u8; 32],
    pub network_address: Vec<u8>,
}

/// A vote choice in on-chain governance.
#[derive(Clone, Copy, Debug, PartialEq, Eq)]
pub enum VoteChoice {
    Yes,
    No,
    Abstain,
}

/// What a governance proposal asks for.
#[derive(Clone, Copy, Debug, PartialEq, Eq)]
pub enum ProposalType {
    ParameterChange,
    ProtocolUpgrade,
    TreasurySpend,
    BugFix,
    CommunityFund,
}

/// Who casts a governance vote: the holder of a live ticket, or a masternode.
#[derive(Clone, Copy, Debug, PartialEq, Eq)]
pub enum VoterType {
    PosTicket,
    Masternode,
}

/// A governance proposal carried by a transaction. A parameter change names the
/// parameter and its new value as text.
#[derive(Clone, Debug, PartialEq, Eq)]
pub struct ProposalTx {
    pub proposal_id: [u8; 32],
    pub proposer_address: [u8; 32],
    pub start_block_height: u64,
    pub end_block_height: u64,
    pub description_hash: [u8; 32],
    pub proposer_signature: Vec<u8>,
    pub inputs: Vec<TxInput>,
    pub outputs: Vec<TxOutput>,
    pub lock_time: u32,
    pub fee: u64,
    pub title: String,
    pub proposal_type: ProposalType,
    pub target_parameter: Option<String>,
    pub new_value: Option<String>,
}

/// A governance vote carried by a transaction; `voter_id` is the voter's public key.
#[derive(Clone, Debug, PartialEq, Eq)]
pub struct VoteTx {
    pub proposal_id: [u8; 32],
    pub voter_id: [u8; 32],
    pub vote_choice: VoteChoice,
    pub voter_signature: Vec<u8>,
    pub inputs: Vec<TxInput>,
    pub outputs: Vec<TxOutput>,
    pub lock_time: u32,
    pub fee: u64,
    pub voter_type: VoterType,
}

/// The characters of an optional text.
pub open spec fn opt_text(t: Option<String>) -> Option<Seq<char>> {
    match t {
        Some(s) => Some(s@),
        None => None,
    }
}

/// A fresh copy of an optional text.
pub fn copy_opt_text(t: &Option<String>) -> (r: Option<String>)
    ensures
        opt_text(r) == opt_text(*t),
{
    match t {
        Some(s) => Some(s.clone()),
        None => None,
    }
}

/// What a transaction is, variant by variant.
pub enum TransactionModel {
    Standard {
        version: u32,
        inputs: Seq<TxInputModel>,
        outputs: Seq<TxOutputModel>,
        lock_time: u32,
        fee: u64,
        witness: Seq<Seq<u8>>,
    },
    Coinbase {
        version: u32,
        inputs: Seq<TxInputModel>,
        outputs: Seq<TxOutputModel>,
        lock_time: u32,
        witness: Seq<Seq<u8>>,
    },
    TicketPurchase {
        version: u32,
        inputs: Seq<TxInputModel>,
        outputs: Seq<TxOutputModel>,
        ticket_id: [u8; 32],
        locked_amount: u64,
        lock_time: u32,
        fee: u64,
        ticket_address: Seq<u8>,
        witness: Seq<Seq<u8>>,
    },
    TicketRedemption {
        version: u32,
        inputs: Seq<TxInputModel>,
        outputs: Seq<TxOutputModel>,
        ticket_id: [u8; 32],
        lock_time: u32,
        fee: u64,
        witness: Seq<Seq<u8>>,
    },
    MasternodeRegister {
        collateral_outpoint: OutPoint,
        operator_public_key: [u8; 32],
        collateral_ownership_public_key: [u8; 32],
        network_address: Seq<u8>,
        signature: Seq<u8>,
        lock_time: u32,
        inputs: Seq<TxInputModel>,
        outputs: Seq<TxOutputModel>,
        witness: Seq<Seq<u8>>,
    },
    GovernanceProposal {
        proposal_id: [u8; 32],
        proposer_address: [u8; 32],
        start_block_height: u64,
        end_block_height: u64,
        description_hash: [u8; 32],
        proposer_signature: Seq<u8>,
        inputs: Seq<TxInputModel>,
        outputs: Seq<TxOutputModel>,
        lock_time: u32,
        fee: u64,
        title: Seq<char>,
        proposal_type: ProposalType,
        target_parameter: Option<Seq<char>>,
        new_value: Option<Seq<char>>,
    },
    GovernanceVote {
        proposal_id: [u8; 32],
        voter_id: [u8; 32],
        vote_choice: VoteChoice,
        voter_signature: Seq<u8>,
        inputs: Seq<TxInputModel>,
        outputs: Seq<TxOutputModel>,
        lock_time: u32,
        fee: u64,
        voter_type: VoterType,
    },
}

#[derive(Clone, Debug, PartialEq, Eq)]
pub enum Transaction {
    Standard {
        version: u32,
        inputs: Vec<TxInput>,
        outputs: Vec<TxOutput>,
        lock_time: u32,
        fee: u64,
        witness: Vec<Vec<u8>>,
    },
    Coinbase {
        version: u32,
        inputs: Vec<TxInput>,
        outputs: Vec<TxOutput>,
        lock_time: u32,
        witness: Vec<Vec<u8>>,
    },
    TicketPurchase {
        version: u32,
        inputs: Vec<TxInput>,
        outputs: Vec<TxOutput>,
        ticket_id: [u8; 32],
        locked_amount: u64,
        lock_time: u32,
        fee: u64,
        ticket_address: Vec<u8>,
        witness: Vec<Vec<u8>>,
    },
    TicketRedemption {
        version: u32,
        inputs: Vec<TxInput>,
        outputs: Vec<TxOutput>,
        ticket_id: [u8; 32],
        lock_time: u32,
        fee: u64,
        witness: Vec<Vec<u8>>,
    },
    MasternodeRegister {
        masternode_identity: MasternodeIdentity,
        signature: Vec<u8>,
        lock_time: u32,
        inputs: Vec<TxInput>,
        outputs: Vec<TxOutput>,
        witness: Vec<Vec<u8>>,
    },
    GovernanceProposal(ProposalTx),
    GovernanceVote(VoteTx),
}

impl View for Transaction {
    type V = TransactionModel;

    open spec fn view(&self) -> TransactionModel {
        match self {
            Transaction::Standard { version, inputs, outputs, lock_time, fee, witness } =>
                TransactionModel::Standard {
                version: *version,
                inputs: inputs_view(inputs@),
                outputs: outputs_view(outputs@),
                lock_time: *lock_time,
                fee: *fee,
                witness: byte_lists(witness@),
            },
            Transaction::Coinbase { version, inputs, outputs, lock_time, witness } =>
                TransactionModel::Coinbase {
                version: *version,
                inputs: inputs_view(inputs@),
                outputs: outputs_view(outputs@),
                lock_time: *lock_time,
                witness: byte_lists(witness@),
            },
            Transaction::TicketPurchase {
                version,
                inputs,
                outputs,
                ticket_id,
                locked_amount,
                lock_time,
                fee,
                ticket_address,
                witness,
            } => TransactionModel::TicketPurchase {
                version: *version,
                inputs: inputs_view(inputs@),
                outputs: outputs_view(outputs@),
                ticket_id: *ticket_id,
                locked_amount: *locked_amount,
                lock_time: *lock_time,
                fee: *fee,
                ticket_address: ticket_address@,
                witness: byte_lists(witness@),
            },
            Transaction::TicketRedemption {
                version,
                inputs,
                outputs,
                ticket_id,
                lock_time,
                fee,
                witness,
            } => TransactionModel::TicketRedemption {
                version: *version,
                inputs: inputs_view(inputs@),
                outputs: outputs_view(outputs@),
                ticket_id: *ticket_id,
                lock_time: *lock_time,
                fee: *fee,
                witness: byte_lists(witness@),
            },
            Transaction::MasternodeRegister {
                masternode_identity,
                signature,
                lock_time,
                inputs,
                outputs,
                witness,
            } => TransactionModel::MasternodeRegister {
                collateral_outpoint: masternode_identity.collateral_outpoint,
                operator_public_key: masternode_identity.operator_public_key,
                collateral_ownership_public_key: masternode_identity.collateral_ownership_public_key,
                network_address: masternode_identity.network_address@,
                signature: signature@,
                lock_time: *lock_time,
                inputs: inputs_view(inputs@),
                outputs: outputs_view(outputs@),
                witness: byte_lists(witness@),
            },
            Transaction::GovernanceProposal(p) => TransactionModel::GovernanceProposal {
                proposal_id: p.proposal_id,
                proposer_address: p.proposer_address,
                start_block_height: p.start_block_height,
                end_block_height: p.end_block_height,
                description_hash: p.description_hash,
                proposer_signature: p.proposer_signature@,
                inputs: inputs_view(p.inputs@),
                outputs: outputs_view(p.outputs@),
                lock_time: p.lock_time,
                fee: p.fee,
                title: p.title@,
                proposal_type: p.proposal_type,
                target_parameter: opt_text(p.target_parameter),
                new_value: opt_text(p.new_value),
            },
            Transaction::GovernanceVote(v) => TransactionModel::GovernanceVote {
                proposal_id: v.proposal_id,
                voter_id: v.voter_id,
                vote_choice: v.vote_choice,
                voter_signature: v.voter_signature@,
                inputs: inputs_view(v.inputs@),
                outputs: outputs_view(v.outputs@),
                lock_time: v.lock_time,
                fee: v.fee,
                voter_type: v.voter_type,
            },
        }
    }
}

impl Transaction {
    /// The inputs the transaction spends.
    pub open spec fn spec_inputs(&self) -> Seq<TxInput> {
        match self {
            Transaction::Standard { inputs, .. } => inputs@,
            Transaction::Coinbase { inputs, .. } => inputs@,
            Transaction::TicketPurchase { inputs, .. } => inputs@,
            Transaction::TicketRedemption { inputs, .. } => inputs@,
            Transaction::MasternodeRegister { inputs, .. } => inputs@,
            Transaction::GovernanceProposal(p) => p.inputs@,
            Transaction::GovernanceVote(v) => v.inputs@,
        }
    }

    /// The outputs the transaction creates.
    pub open spec fn spec_outputs(&self) -> Seq<TxOutput> {
        match self {
            Transaction::Standard { outputs, .. } => outputs@,
            Transaction::Coinbase { outputs, .. } => outputs@,
            Transaction::TicketPurchase { outputs, .. } => outputs@,
            Transaction::TicketRedemption { outputs, .. } => outputs@,
            Transaction::MasternodeRegister { outputs, .. } => outputs@,
            Transaction::GovernanceProposal(p) => p.outputs@,
            Transaction::GovernanceVote(v) => v.outputs@,
        }
    }

    /// The fee the transaction declares; a coinbase and a registration declare none.
    pub open spec fn spec_fee(&self) -> u64 {
        match self {
            Transaction::Standard { fee, .. } => *fee,
            Transaction::Coinbase { .. } => 0,
            Transaction::TicketPurchase { fee, .. } => *fee,
            Transaction::TicketRedemption { fee, .. } => *fee,
            Transaction::MasternodeRegister { .. } => 0,
            Transaction::GovernanceProposal(p) => p.fee,
            Transaction::GovernanceVote(v) => v.fee,
        }
    }

    /// The lock time of the transaction.
    pub open spec fn spec_lock_time(&self) -> u32 {
        match self {
            Transaction::Standard { lock_time, .. } => *lock_time,
            Transaction::Coinbase { lock_time, .. } => *lock_time,
            Transaction::TicketPurchase { lock_time, .. } => *lock_time,
            Transaction::TicketRedemption { lock_time, .. } => *lock_time,
            Transaction::MasternodeRegister { lock_time, .. } => *lock_time,
            Transaction::GovernanceProposal(p) => p.lock_time,
            Transaction::GovernanceVote(v) => v.lock_time,
        }
    }

    /// The version the transaction carries; the variants without one count as version 1.
    pub open spec fn spec_version(&self) -> u32 {
        match self {
            Transaction::Standard { version, .. } => *version,
            Transaction::Coinbase { version, .. } => *version,
            Transaction::TicketPurchase { version, .. } => *version,
            Transaction::TicketRedemption { version, .. } => *version,
            Transaction::MasternodeRegister { .. } => 1,
            Transaction::GovernanceProposal(_) => 1,
            Transaction::GovernanceVote(_) => 1,
        }
    }

    pub fn get_inputs(&self) -> (r: &Vec<TxInput>)
        ensures
            r@ == self.spec_inputs(),
    {
        match self {
            Transaction::Standard { inputs, .. } => inputs,
            Transaction::Coinbase { inputs, .. } => inputs,
            Transaction::TicketPurchase { inputs, .. } => inputs,
            Transaction::TicketRedemption { inputs, .. } => inputs,
            Transaction::MasternodeRegister { inputs, .. } => inputs,
            Transaction::GovernanceProposal(p) => &p.inputs,
            Transaction::GovernanceVote(v) => &v.inputs,
        }
    }

    pub fn get_outputs(&self) -> (r: &Vec<TxOutput>)
        ensures
            r@ == self.spec_outputs(),
    {
        match self {
            Transaction::Standard { outputs, .. } => outputs,
            Transaction::Coinbase { outputs, .. } => outputs,
            Transaction::TicketPurchase { outputs, .. } => outputs,
            Transaction::TicketRedemption { outputs, .. } => outputs,
            Transaction::MasternodeRegister { outputs, .. } => outputs,
            Transaction::GovernanceProposal(p) => &p.outputs,
            Transaction::GovernanceVote(v) => &v.outputs,
        }
    }

    pub fn get_fee(&self) -> (r: u64)
        ensures
            r == self.spec_fee(),
    {
        match self {
            Transaction::Standard { fee, .. } => *fee,
            Transaction::Coinbase { .. } => 0,
            Transaction::TicketPurchase { fee, .. } => *fee,
            Transaction::TicketRedemption { fee, .. } => *fee,
            Transaction::MasternodeRegister { .. } => 0,
            Transaction::GovernanceProposal(p) => p.fee,
            Transaction::GovernanceVote(v) => v.fee,
        }
    }

    pub fn get_lock_time(&self) -> (r: u32)
        ensures
            r == self.spec_lock_time(),
    {
        match self {
            Transaction::Standard { lock_time, .. } => *lock_time,
            Transaction::Coinbase { lock_time, .. } => *lock_time,
            Transaction::TicketPurchase { lock_time, .. } => *lock_time,
            Transaction::TicketRedemption { lock_time, .. } => *lock_time,
            Transaction::MasternodeRegister { lock_time, .. } => *lock_time,
            Transaction::GovernanceProposal(p) => p.lock_time,
            Transaction::GovernanceVote(v) => v.lock_time,
        }
    }

    pub fn get_version(&self) -> (r: u32)
        ensures
            r == self.spec_version(),
    {
        match self {
            Transaction::Standard { version, .. } => *version,
            Transaction::Coinbase { version, .. } => *version,
            Transaction::TicketPurchase { version, .. } => *version,
            Transaction::TicketRedemption { version, .. } => *version,
            Transaction::MasternodeRegister { .. } => 1,
            Transaction::GovernanceProposal(_) => 1,
            Transaction::GovernanceVote(_) => 1,
        }
    }

    pub fn is_coinbase(&self) -> (r: bool)
        ensures
            r == (*self is Coinbase),
    {
        match self {
            Transaction::Coinbase { .. } => true,
            _ => false,
        }
    }
}

impl TransactionModel {
    /// The inputs the transaction spends.
    pub open spec fn inputs(self) -> Seq<TxInputModel> {
        match self {
            TransactionModel::Standard { inputs, .. } => inputs,
            TransactionModel::Coinbase { inputs, .. } => inputs,
            TransactionModel::TicketPurchase { inputs, .. } => inputs,
            TransactionModel::TicketRedemption { inputs, .. } => inputs,
            TransactionModel::MasternodeRegister { inputs, .. } => inputs,
            TransactionModel::GovernanceProposal { inputs, .. } => inputs,
            TransactionModel::GovernanceVote { inputs, .. } => inputs,
        }
    }

    /// The fee the transaction declares; a coinbase and a registration declare none.
    pub open spec fn fee(self) -> u64 {
        match self {
            TransactionModel::Standard { fee, .. } => fee,
            TransactionModel::Coinbase { .. } => 0,
            TransactionModel::TicketPurchase { fee, .. } => fee,
            TransactionModel::TicketRedemption { fee, .. } => fee,
            TransactionModel::MasternodeRegister { .. } => 0,
            TransactionModel::GovernanceProposal { fee, .. } => fee,
            TransactionModel::GovernanceVote { fee, .. } => fee,
        }
    }
}

/// The view of a transaction lists the views of its inputs and declares its fee.
pub proof fn lemma_view_fields(t: Transaction)
    ensures
        t@.inputs() == inputs_view(t.spec_inputs()),
        t@.fee() == t.spec_fee(),
{
    match t {
        Transaction::Standard { .. } => {},
        Transaction::Coinbase { .. } => {},
        Transaction::TicketPurchase { .. } => {},
        Transaction::TicketRedemption { .. } => {},
        Transaction::MasternodeRegister { .. } => {},
        Transaction::GovernanceProposal(_) => {},
        Transaction::GovernanceVote(_) => {},
    }
}

impl ProposalTx {
    /// A fresh copy of this proposal.
    pub fn deep_copy(&self) -> (r: ProposalTx)
        ensures
            Transaction::GovernanceProposal(r)@ == Transaction::GovernanceProposal(*self)@,
    {
        ProposalTx {
            proposal_id: self.proposal_id,
            proposer_address: self.proposer_address,
            start_block_height: self.start_block_height,
            end_block_height: self.end_block_height,
            description_hash: self.description_hash,
            proposer_signature: copy_bytes(self.proposer_signature.as_slice()),
            inputs: copy_inputs(&self.inputs),
            outputs: copy_outputs(&self.outputs),
            lock_time: self.lock_time,
            fee: self.fee,
            title: self.title.clone(),
            proposal_type: self.proposal_type,
            target_parameter: copy_opt_text(&self.target_parameter),
            new_value: copy_opt_text(&self.new_value),
        }
    }
}

impl VoteTx {
    /// A fresh copy of this vote.
    pub fn deep_copy(&self) -> (r: VoteTx)
        ensures
            Transaction::GovernanceVote(r)@ == Transaction::GovernanceVote(*self)@,
    {
        VoteTx {
            proposal_id: self.proposal_id,
            voter_id: self.voter_id,
            vote_choice: self.vote_choice,
            voter_signature: copy_bytes(self.voter_signature.as_slice()),
            inputs: copy_inputs(&self.inputs),
            outputs: copy_outputs(&self.outputs),
            lock_time: self.lock_time,
            fee: self.fee,
            voter_type: self.voter_type,
        }
    }
}

impl Transaction {
    /// A fresh copy of this transaction.
    pub fn deep_copy(&self) -> (r: Transaction)
        ensures
            r@ == self@,
    {
        match self {
            Transaction::Standard { version, inputs, outputs, lock_time, fee, witness } => Transaction::Standard {
                version: *version,
                inputs: copy_inputs(inputs),
                outputs: copy_outputs(outputs),
                lock_time: *lock_time,
                fee: *fee,
                witness: copy_byte_lists(witness),
            },
            Transaction::Coinbase { version, inputs, outputs, lock_time, witness } => Transaction::Coinbase {
                version: *version,
                inputs: copy_inputs(inputs),
                outputs: copy_outputs(outputs),
                lock_time: *lock_time,
                witness: copy_byte_lists(witness),
            },
            Transaction::TicketPurchase {
                version,
                inputs,
                outputs,
                ticket_id,
                locked_amount,
                lock_time,
                fee,
                ticket_address,
                witness,
            } => Transaction::TicketPurchase {
                version: *version,
                inputs: copy_inputs(inputs),
                outputs: copy_outputs(outputs),
                ticket_id: *ticket_id,
                locked_amount: *locked_amount,
                lock_time: *lock_time,
                fee: *fee,
                ticket_address: copy_bytes(ticket_address.as_slice()),
                witness: copy_byte_lists(witness),
            },
            Transaction::TicketRedemption { version, inputs, outputs, ticket_id, lock_time, fee, witness } => Transaction::TicketRedemption {
                version: *version,
                inputs: copy_inputs(inputs),
                outputs: copy_outputs(outputs),
                ticket_id: *ticket_id,
                lock_time: *lock_time,
                fee: *fee,
                witness: copy_byte_lists(witness),
            },
            Transaction::MasternodeRegister { masternode_identity, signature, lock_time, inputs, outputs, witness } => Transaction::MasternodeRegister {
                masternode_identity: MasternodeIdentity {
                    collateral_outpoint: masternode_identity.collateral_outpoint,
                    operator_public_key: masternode_identity.operator_public_key,
                    collateral_ownership_public_key: masternode_identity.collateral_ownership_public_key,
                    network_address: copy_bytes(masternode_identity.network_address.as_slice()),
                },
                signature: copy_bytes(signature.as_slice()),
                lock_time: *lock_time,
                inputs: copy_inputs(inputs),
                outputs: copy_outputs(outputs),
                witness: copy_byte_lists(witness),
            },
            Transaction::GovernanceProposal(p) => Transaction::GovernanceProposal(p.deep_copy()),
            Transaction::GovernanceVote(v) => Transaction::GovernanceVote(v.deep_copy()),
        }
    }
}

/// The header of a block.
#[derive(Clone, Copy, Debug, PartialEq, Eq)]
pub struct BlockHeader {
    pub version: u32,
    pub previous_block_hash: [u8; 32],
    pub merkle_root: [u8; 32],
    pub timestamp: u64,
    pub bits: u32,
    pub nonce: u64,
    pub height: u64,
    pub difficulty_target: u32,
    pub state_root: [u8; 32],
}

/// A ticket holder's vote carried by a block.
#[derive(Clone, Debug, PartialEq, Eq)]
pub struct TicketVote {
    pub ticket_id: [u8; 32],
    pub block_hash: [u8; 32],
    pub vote: u8,
    pub signature: Vec<u8>,
}

/// A block: its header, its transactions and, for a proof-of-stake block, its ticket votes.
#[derive(Clone, Debug, PartialEq, Eq)]
pub struct Block {
    pub header: BlockHeader,
    pub transactions: Vec<Transaction>,
    pub ticket_votes: Vec<TicketVote>,
}

/// What a stake vote holds, as values: the ticket, the block voted on, the vote and the
/// signature bytes.
pub open spec fn vote_model(v: TicketVote) -> ([u8; 32], [u8; 32], u8, Seq<u8>) {
    (v.ticket_id, v.block_hash, v.vote, v.signature@)
}

/// What a block holds, as values.
pub struct BlockModel {
    pub header: BlockHeader,
    pub transactions: Seq<TransactionModel>,
    pub ticket_votes: Seq<([u8; 32], [u8; 32], u8, Seq<u8>)>,
}

impl View for Block {
    type V = BlockModel;

    open spec fn view(&self) -> BlockModel {
        BlockModel {
            header: self.header,
            transactions: self.transactions@.map_values(|t: Transaction| t@),
            ticket_votes: self.ticket_votes@.map_values(|v: TicketVote| vote_model(v)),
        }
    }
}

impl Block {
    /// A fresh copy of this block.
    pub fn deep_copy(&self) -> (r: Block)
        ensures
            r@ == self@,
    {
        let mut transactions: Vec<Transaction> = Vec::new();
        let mut i: usize = 0;
        while i < self.transactions.len()
            invariant
                i <= self.transactions@.len(),
                transactions@.len() == i,
                forall|j: int| 0 <= j < i ==> #[trigger] transactions@[j]@ == self.transactions@[j]@,
            decreases self.transactions@.len() - i,
        {
            transactions.push(self.transactions[i].deep_copy());
            i = i + 1;
        }
        let mut ticket_votes: Vec<TicketVote> = Vec::new();
        let mut k: usize = 0;
        while k < self.ticket_votes.len()
            invariant
                k <= self.ticket_votes@.len(),
                ticket_votes@.len() == k,
                forall|j: int| 0 <= j < k ==> vote_model(#[trigger] ticket_votes@[j]) == vote_model(self.ticket_votes@[j]),
            decreases self.ticket_votes@.len() - k,
        {
            let v = &self.ticket_votes[k];
            ticket_votes.push(TicketVote {
                ticket_id: v.ticket_id,
                block_hash: v.block_hash,
                vote: v.vote,
                signature: copy_bytes(v.signature.as_slice()),
            });
            k = k + 1;
        }
        let r = Block { header: self.header, transactions, ticket_votes };
        assert(r@.transactions =~= self@.transactions);
        assert(r@.ticket_votes =~= self@.ticket_votes);
        r
    }
}

/// The state of a staking ticket.
#[derive(Clone, Copy, Debug, PartialEq, Eq)]
pub enum TicketStatus {
    Pending,
    Live,
    Voted,
    Expired,
    Revoked,
}

/// A staking ticket in the live pool.
#[derive(Clone, Debug, PartialEq, Eq)]
pub struct Ticket {
    pub id: [u8; 32],
    pub pubkey: Vec<u8>,
    pub height: u64,
    pub value: u64,
    pub status: TicketStatus,
}

/// What a ticket holds, as values.
pub struct TicketModel {
    pub id: [u8; 32],
    pub pubkey: Seq<u8>,
    pub height: u64,
    pub value: u64,
    pub status: TicketStatus,
}

impl View for Ticket {
    type V = TicketModel;

    open spec fn view(&self) -> TicketModel {
        TicketModel {
            id: self.id,
            pubkey: self.pubkey@,
            height: self.height,
            value: self.value,
            status: self.status,
        }
    }
}

} // verus!
